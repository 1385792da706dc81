use std::io::Write;

use flate2::write::GzEncoder;
use flate2::Compression;
use gcit::git::grokmirror::{
    begin_body, build_manifest_url, check_content_length, check_status, chunk_error,
    decompress_manifest, extract_repo_path_from_url, fetch_timeout_error, judge_status,
    lookup_fingerprint, manifest_json_error, repo_path_of, request_error, Body, GrokmirrorError,
    Manifest, RepoEntry, MAX_COMPRESSED_BYTES, MAX_DECOMPRESSED_BYTES,
};
use gcit::git::remote_url::RemoteUrl;

fn gzip(bytes: &[u8]) -> Vec<u8> {
    let mut e = GzEncoder::new(Vec::new(), Compression::default());
    e.write_all(bytes).unwrap();
    e.finish().unwrap()
}

#[test]
fn build_manifest_url_appends_path() {
    assert_eq!(
        build_manifest_url("https://git.kernel.org"),
        "https://git.kernel.org/manifest.js.gz",
    );
    assert_eq!(
        build_manifest_url("https://git.kernel.org/"),
        "https://git.kernel.org/manifest.js.gz",
    );
}

#[test]
fn build_manifest_url_drops_all_trailing_slashes() {
    assert_eq!(build_manifest_url("https://h///"), "https://h/manifest.js.gz");
    assert_eq!(build_manifest_url("//"), "/manifest.js.gz");
}

#[test]
fn packed_manifests_unpack_to_their_text() {
    let json = r#"{
        "/pub/linux.git": {"fingerprint": "abc123", "modified": 1700000000}
    }"#;
    assert_eq!(decompress_manifest(&gzip(json.as_bytes())).unwrap(), json.as_bytes().to_vec());
}

#[test]
fn parse_rejects_invalid_gzip() {
    let err = decompress_manifest(b"not gzip at all").unwrap_err();
    match err {
        GrokmirrorError::Permanent { message } => {
            assert!(message.starts_with("manifest decompression failed: "), "got {message}");
            assert!(message.len() > "manifest decompression failed: ".len());
        }
        other => panic!("expected Permanent, got {other:?}"),
    }
}

#[test]
fn parse_rejects_invalid_json() {
    let text = decompress_manifest(&gzip(b"not json {{{")).unwrap();
    let parsed: Result<serde_json::Value, serde_json::Error> = serde_json::from_slice(&text);
    let err = manifest_json_error(&parsed.unwrap_err().to_string());
    assert!(matches!(err, GrokmirrorError::Permanent { .. }), "got {err:?}");
    assert!(err.to_text().starts_with("permanent: manifest JSON parse: expected "));
}

#[test]
fn parse_rejects_decompressed_over_cap() {
    let oversized = vec![b'a'; (MAX_DECOMPRESSED_BYTES + 1) as usize];
    let err = decompress_manifest(&gzip(&oversized)).unwrap_err();
    match err {
        GrokmirrorError::Permanent { message } => {
            assert_eq!(
                message,
                "manifest decompressed to over 16777216 bytes; rejecting as potentially hostile",
            );
        }
        other => panic!("expected Permanent oversize, got {other:?}"),
    }
}

#[test]
fn manifests_of_just_the_cap_are_unpacked() {
    let full = vec![b'a'; MAX_DECOMPRESSED_BYTES as usize];
    let text = decompress_manifest(&gzip(&full)).unwrap();
    assert_eq!(text.len() as u64, MAX_DECOMPRESSED_BYTES);
    assert_eq!(decompress_manifest(&gzip(b"{}")).unwrap(), b"{}".to_vec());
}

fn manifest_of(path: &str, fingerprint: &str) -> Manifest {
    let mut m = Manifest::new();
    let entry = RepoEntry { fingerprint: fingerprint.to_string(), modified: None };
    m.insert(path.to_string(), entry);
    m
}

#[test]
fn lookup_fingerprint_hit() {
    let m = manifest_of("/r.git", "abc");
    assert_eq!(lookup_fingerprint(&m, "/r.git").unwrap(), "abc");
}

#[test]
fn lookup_fingerprint_miss() {
    let m = manifest_of("/r.git", "abc");
    let err = lookup_fingerprint(&m, "/missing.git").unwrap_err();
    assert!(matches!(err, GrokmirrorError::RepoNotInManifest { .. }));
    assert_eq!(err.to_text(), "repo `/missing.git` not present in manifest");
}

#[test]
fn extract_repo_path_from_kernel_url() {
    let p = extract_repo_path_from_url(
        "https://git.kernel.org/pub/scm/linux/kernel/git/torvalds/linux.git",
    )
    .unwrap();
    assert_eq!(p, "/pub/scm/linux/kernel/git/torvalds/linux.git");
}

#[test]
fn urls_without_a_path_have_no_repo() {
    let err = extract_repo_path_from_url("https://git.kernel.org").unwrap_err();
    assert_eq!(
        err.to_text(),
        "permanent: source URL \"https://git.kernel.org\" has no path component",
    );
    let err = extract_repo_path_from_url("").unwrap_err();
    assert!(err.to_text().starts_with("permanent: could not parse source URL \"\": "));
}

#[test]
fn repo_paths_start_at_the_root() {
    let parsed = |path: &str| Ok(RemoteUrl { host: None, path: path.to_string() });
    assert_eq!(repo_path_of("u", parsed("repo.git")).unwrap(), "/repo.git");
    assert_eq!(repo_path_of("u", parsed("/repo.git")).unwrap(), "/repo.git");
    assert!(repo_path_of("u", parsed("/")).is_err());
    assert!(repo_path_of("u", parsed("")).is_err());
    assert_eq!(
        repo_path_of("a\"b", Err("bad".to_string())).unwrap_err().to_text(),
        "permanent: could not parse source URL \"a\\\"b\": bad",
    );
    assert_eq!(extract_repo_path_from_url("git@host:repo.git").unwrap(), "/repo.git");
}

#[test]
fn statuses_decide_on_retries() {
    assert!(check_status(200).is_ok());
    assert!(check_status(299).is_ok());
    assert_eq!(
        check_status(503).unwrap_err().to_text(),
        "transient: manifest fetch returned 503 Service Unavailable",
    );
    assert_eq!(
        check_status(404).unwrap_err().to_text(),
        "permanent: manifest fetch returned 404 Not Found",
    );
    assert_eq!(
        check_status(599).unwrap_err().to_text(),
        "transient: manifest fetch returned 599 ",
    );
    assert_eq!(
        judge_status(301, Some("Moved")).unwrap_err().to_text(),
        "permanent: manifest fetch returned 301 Moved",
    );
}

#[test]
fn announced_lengths_are_capped() {
    assert!(check_content_length(None).is_ok());
    assert!(check_content_length(Some(MAX_COMPRESSED_BYTES)).is_ok());
    assert_eq!(
        check_content_length(Some(MAX_COMPRESSED_BYTES + 1)).unwrap_err().to_text(),
        "permanent: manifest Content-Length 67108865 exceeds cap of 67108864",
    );
}

#[test]
fn bodies_are_capped_while_they_come_in() {
    let body = Body::new().push_chunk(b"ab").unwrap().push_chunk(b"").unwrap();
    assert_eq!(body.push_chunk(b"c").unwrap().into_bytes(), b"abc".to_vec());
    let half = vec![0u8; (MAX_COMPRESSED_BYTES / 2) as usize];
    let full = Body::new().push_chunk(&half).unwrap().push_chunk(&half).unwrap();
    let Err(err) = full.push_chunk(b"x") else {
        panic!("one byte too many must be refused");
    };
    assert_eq!(
        err.to_text(),
        "permanent: manifest body exceeded cap of 67108864 bytes during stream read",
    );
}

#[test]
fn fetch_failures_are_transient() {
    assert_eq!(
        fetch_timeout_error("https://h/manifest.js.gz").to_text(),
        "transient: manifest fetch timed out after 60s: https://h/manifest.js.gz",
    );
    assert_eq!(request_error("u", "refused").to_text(), "transient: HTTP request to u: refused");
    assert_eq!(chunk_error("reset").to_text(), "transient: read manifest body chunk: reset");
}

#[test]
fn statuses_are_judged_before_lengths() {
    let opened = |status: u16, length: Option<u64>| match begin_body(status, length) {
        Ok(body) => body.into_bytes(),
        Err(e) => panic!("{}", e.to_text()),
    };
    let too_long = Some(MAX_COMPRESSED_BYTES + 1);
    assert_eq!(opened(200, Some(3)), Vec::<u8>::new());
    assert_eq!(opened(204, None), Vec::<u8>::new());
    let said = |status: u16, length: Option<u64>| match begin_body(status, length) {
        Ok(_) => panic!("must be refused"),
        Err(e) => e.to_text(),
    };
    assert_eq!(said(404, too_long), "permanent: manifest fetch returned 404 Not Found");
    assert_eq!(
        said(200, too_long),
        "permanent: manifest Content-Length 67108865 exceeds cap of 67108864",
    );
}
