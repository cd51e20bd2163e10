// End-to-end exercises of the client flows against the coordinator:
// upload, listing, latest resolution, download, deletion, authentication
// and the multipart session lifecycle.

use version_api::client::{VersionServerClient, VersionServerError, CHUNK_SIZE};
use version_api::client::{chunk_bytes, classify_response, sha256_hex};
use version_api::keys::artifact_key;
use version_api::models::CompleteVersionRequest;
use version_api::platform::{supported_platforms, validate_platform};
use version_api::server::{ApiBody, ApiRequest, VersionServer};

const KEY: &str = "test-api-key";

fn server() -> VersionServer {
    VersionServer::new(String::from(KEY))
}

fn client() -> VersionServerClient {
    VersionServerClient::new("http://localhost:8787/").with_api_key(KEY)
}

fn test_files() -> Vec<(String, Vec<u8>)> {
    let mut files = Vec::new();
    for platform in supported_platforms() {
        let body = format!("test bundle for {platform}").into_bytes();
        files.push((platform, body));
    }
    files
}

fn bearer() -> Option<String> {
    Some(format!("Bearer {KEY}"))
}

#[test]
fn test_list_versions_empty() {
    let mut srv = server();
    let result = client().list_versions(&mut srv, "test-app");
    assert!(result.is_ok());
    assert!(result.unwrap().is_empty());
}

#[test]
fn test_get_latest_version_not_found() {
    let mut srv = server();
    let result = client().get_latest_version(&mut srv, "test-app-notfound-0", "macos-arm");
    assert!(result.is_ok());
    assert!(result.unwrap().is_none());
}

#[test]
fn test_upload_without_auth() {
    let mut srv = server();
    let base = client();
    let client_no_auth = VersionServerClient::new(base.base_url());
    let files = test_files();
    let result = client_no_auth.upload_version(&mut srv, "test-app", "1.0.0", &files);
    match result {
        Err(VersionServerError::Authentication) => {}
        Err(VersionServerError::Api { status: 401, .. }) => {}
        other => panic!("Expected authentication error, got: {other:?}"),
    }
}

#[test]
fn test_upload_and_download_flow() {
    let mut srv = server();
    let c = client();
    let files = test_files();

    let upload_result = c.upload_version(&mut srv, "test-app", "1.0.0", &files);
    assert!(upload_result.is_ok());

    let versions = c.list_versions(&mut srv, "test-app").unwrap();
    assert!(!versions.is_empty());
    assert_eq!(versions[0].version, "1.0.0");

    let latest = c
        .get_latest_version(&mut srv, "test-app", "macos-arm")
        .unwrap()
        .unwrap();
    assert_eq!(latest.version, "1.0.0");
    assert!(latest.platforms.contains(&"macos-arm".to_string()));

    let download_result = c.download_version(&mut srv, "test-app", "macos-arm", "1.0.0");
    assert!(download_result.is_ok());
    assert_eq!(download_result.unwrap(), b"test bundle for macos-arm".to_vec());
}

#[test]
fn test_download_nonexistent_version() {
    let mut srv = server();
    let result = client().download_version(&mut srv, "test-app", "macos-arm", "999.0.0");
    assert!(matches!(result, Err(VersionServerError::VersionNotFound)));
}

#[test]
fn test_delete_version() {
    let mut srv = server();
    let c = client();
    let files = test_files();
    c.upload_version(&mut srv, "test-app-delete-0", "1.0.0-0", &files)
        .unwrap();

    let delete_result = c.delete_version(&mut srv, "test-app-delete-0", "1.0.0-0");
    assert!(delete_result.is_ok());

    let versions = c.list_versions(&mut srv, "test-app-delete-0").unwrap();
    assert!(versions.is_empty() || !versions.iter().any(|v| v.version == "1.0.0-0"));
}

// Concrete scenario: two platforms of one version round-trip exactly,
// aggregate into one listing entry, and deletion makes both downloads
// not-found.
#[test]
fn test_two_platform_scenario() {
    let mut srv = server();
    let c = client();
    let mac_bytes: Vec<u8> = vec![1, 2, 3, 4, 5];
    let win_bytes: Vec<u8> = vec![9, 8, 7];
    let files = vec![
        ("macos-arm".to_string(), mac_bytes.clone()),
        ("windows-x86_64-gnu".to_string(), win_bytes.clone()),
    ];

    let up = c.upload_version(&mut srv, "demo", "2.0.0", &files).unwrap();
    assert!(up.success);
    assert_eq!(up.app_name, "demo");
    assert_eq!(up.version, "2.0.0");

    let versions = c.list_versions(&mut srv, "demo").unwrap();
    assert_eq!(versions.len(), 1);
    assert_eq!(versions[0].version, "2.0.0");
    let mut platforms = versions[0].platforms.clone();
    platforms.sort();
    assert_eq!(platforms, vec!["macos-arm".to_string(), "windows-x86_64-gnu".to_string()]);

    let got = c.download_version(&mut srv, "demo", "macos-arm", "2.0.0").unwrap();
    assert_eq!(got, mac_bytes);
    let got_win = c
        .download_version(&mut srv, "demo", "windows-x86_64-gnu", "2.0.0")
        .unwrap();
    assert_eq!(got_win, win_bytes);

    let deleted = c.delete_version(&mut srv, "demo", "2.0.0").unwrap();
    assert!(deleted.success);
    assert!(c.list_versions(&mut srv, "demo").unwrap().is_empty());
    assert!(matches!(
        c.download_version(&mut srv, "demo", "macos-arm", "2.0.0"),
        Err(VersionServerError::VersionNotFound)
    ));
    assert!(matches!(
        c.download_version(&mut srv, "demo", "windows-x86_64-gnu", "2.0.0"),
        Err(VersionServerError::VersionNotFound)
    ));
}

// An unsupported platform fails before any request reaches the server.
#[test]
fn test_unsupported_platform_no_request() {
    let mut srv = server();
    let c = client();
    let files = vec![("linux-mips".to_string(), vec![1u8, 2, 3])];
    match c.upload_version(&mut srv, "demo", "1.0.0", &files) {
        Err(VersionServerError::UnsupportedPlatform(p)) => assert_eq!(p, "linux-mips"),
        other => panic!("expected unsupported-platform error, got {other:?}"),
    }
    // Nothing was written.
    assert!(c.list_versions(&mut srv, "demo").unwrap().is_empty());

    match c.get_latest_version(&mut srv, "demo", "amiga") {
        Err(VersionServerError::UnsupportedPlatform(p)) => assert_eq!(p, "amiga"),
        other => panic!("expected unsupported-platform error, got {other:?}"),
    }
    match c.download_version(&mut srv, "demo", "amiga", "1.0.0") {
        Err(VersionServerError::UnsupportedPlatform(p)) => assert_eq!(p, "amiga"),
        other => panic!("expected unsupported-platform error, got {other:?}"),
    }
    assert!(validate_platform("macos-arm").is_ok());
    assert!(validate_platform("amiga").is_err());

    // The server's own 400 names the platform it refused.
    let resp = srv.handle_latest("demo", "amiga");
    assert_eq!(resp.status, 400);
    match resp.body {
        ApiBody::Error(e) => assert_eq!(e.error, "Unsupported platform: amiga"),
        other => panic!("expected an error body, got {other:?}"),
    }
    let resp = srv.handle_download("demo", "amiga", "1.0.0");
    assert_eq!(resp.status, 400);
    match resp.body {
        ApiBody::Error(e) => assert_eq!(e.error, "Unsupported platform: amiga"),
        other => panic!("expected an error body, got {other:?}"),
    }
}

// A session created and fed parts but aborted before complete leaves no
// listing entry and no retrievable object at the target key.
#[test]
fn test_aborted_session_leaves_nothing() {
    let mut srv = server();
    let auth = bearer();

    let created = srv.handle_mpu_create(&auth, "demo", "3.0.0", "macos-arm");
    assert_eq!(created.status, 200);
    let upload_id = match created.body {
        ApiBody::MpuCreated(c) => {
            assert_eq!(c.key, "demo/3.0.0/demo-macos-arm.zip");
            c.upload_id
        }
        other => panic!("expected session, got {other:?}"),
    };

    let part = srv.handle_mpu_upload_part(
        &auth,
        "demo",
        "3.0.0",
        "macos-arm",
        &upload_id,
        1,
        vec![42u8; 16],
    );
    assert_eq!(part.status, 200);

    let aborted = srv.handle_mpu_abort(&auth, "demo", "3.0.0", "macos-arm", &upload_id);
    assert_eq!(aborted.status, 204);

    let listing = srv.handle_list("demo");
    match listing.body {
        ApiBody::VersionList { versions, .. } => assert!(versions.is_empty()),
        other => panic!("expected listing, got {other:?}"),
    }
    let download = srv.handle_download("demo", "macos-arm", "3.0.0");
    assert_eq!(download.status, 404);

    // Completing the aborted session fails too.
    let completed = srv.handle_mpu_complete(&auth, "demo", "3.0.0", "macos-arm", &upload_id, &vec![]);
    assert_eq!(completed.status, 500);
}

// Insert-or-replace: a re-upload of the same triple replaces the row and
// the blob; the listing still shows one entry.
#[test]
fn test_upload_replaces_same_triple() {
    let mut srv = server();
    let c = client();
    let first = vec![("macos-arm".to_string(), vec![1u8, 1, 1])];
    let second = vec![("macos-arm".to_string(), vec![2u8, 2])];
    c.upload_version(&mut srv, "demo", "1.0.0", &first).unwrap();
    c.upload_version(&mut srv, "demo", "1.0.0", &second).unwrap();

    let versions = c.list_versions(&mut srv, "demo").unwrap();
    assert_eq!(versions.len(), 1);
    assert_eq!(versions[0].platforms, vec!["macos-arm".to_string()]);

    let got = c.download_version(&mut srv, "demo", "macos-arm", "1.0.0").unwrap();
    assert_eq!(got, vec![2u8, 2]);
}

// The registry stores the checksum the client computed of the bytes it
// actually sent: the digest of b"hello" is pinned.
#[test]
fn test_checksum_recorded() {
    let mut srv = server();
    let c = client();
    let files = vec![("macos-arm".to_string(), b"hello".to_vec())];
    c.upload_version(&mut srv, "demo", "1.0.0", &files).unwrap();

    let versions = c.list_versions(&mut srv, "demo").unwrap();
    assert_eq!(versions.len(), 1);
    let expected = "2cf24dba5fb0a30e26e83b2ac5b9e29e1b161e5c1fa7425e73043362938b9824";
    assert_eq!(
        versions[0].sha256s,
        vec![("macos-arm".to_string(), expected.to_string())]
    );
    assert_eq!(sha256_hex(b"hello"), expected);
    assert_eq!(
        sha256_hex(b""),
        "e3b0c44298fc1c149afbf4c8996fb92427ae41e4649b934ca495991b7852b855"
    );
}

// Latest resolution picks the newest row carrying the platform, and the
// download endpoint resolves the literal version "latest" the same way.
#[test]
fn test_latest_picks_newest_row() {
    let mut srv = server();
    let c = client();
    c.upload_version(&mut srv, "demo", "1.0.0", &vec![("macos-arm".to_string(), vec![1u8])])
        .unwrap();
    c.upload_version(&mut srv, "demo", "1.1.0", &vec![("macos-arm".to_string(), vec![2u8])])
        .unwrap();
    c.upload_version(
        &mut srv,
        "demo",
        "0.9.0",
        &vec![("windows-x86_64-gnu".to_string(), vec![3u8])],
    )
    .unwrap();

    // The newest macos-arm row is 1.1.0; windows rows do not interfere.
    let latest = c.get_latest_version(&mut srv, "demo", "macos-arm").unwrap().unwrap();
    assert_eq!(latest.version, "1.1.0");

    // Listing order: one entry per version, newest row first.
    let versions = c.list_versions(&mut srv, "demo").unwrap();
    let order: Vec<&str> = versions.iter().map(|v| v.version.as_str()).collect();
    assert_eq!(order, vec!["0.9.0", "1.1.0", "1.0.0"]);

    // The newest windows row is 0.9.0, even though newer versions exist
    // for the other platform.
    let latest_win = c
        .get_latest_version(&mut srv, "demo", "windows-x86_64-gnu")
        .unwrap()
        .unwrap();
    assert_eq!(latest_win.version, "0.9.0");

    // No row carries macos-intel: absent, despite other platforms.
    assert!(c.get_latest_version(&mut srv, "demo", "macos-intel").unwrap().is_none());

    let via_latest = c.download_version(&mut srv, "demo", "macos-arm", "latest").unwrap();
    assert_eq!(via_latest, vec![2u8]);
}

// The router handles typed requests like the HTTP router handles paths.
#[test]
fn test_router_dispatch() {
    let mut srv = server();
    let listing = srv.handle_now(&ApiRequest::ListVersions { app: "demo".to_string() });
    assert_eq!(listing.status, 200);
    let finish = srv.handle_now(&ApiRequest::Finish {
        auth: bearer(),
        app: "demo".to_string(),
        body: CompleteVersionRequest {
            version: "1.0.0".to_string(),
            platform: "macos-arm".to_string(),
            sha256: "00".to_string(),
        },
    });
    // No blob was ever written for this row, so the finish is refused.
    assert_eq!(finish.status, 404);
}

// Error normalization: 401 and 404 map to their typed errors; other
// statuses carry the structured message when the body is a JSON error
// object, else the raw text.
#[test]
fn test_classify_response() {
    assert!(matches!(classify_response(401, ""), VersionServerError::Authentication));
    assert!(matches!(classify_response(404, ""), VersionServerError::VersionNotFound));
    match classify_response(500, "{\"error\":\"boom\"}") {
        VersionServerError::Api { status, message } => {
            assert_eq!(status, 500);
            assert_eq!(message, "boom");
        }
        other => panic!("expected structured error, got {other:?}"),
    }
    match classify_response(502, "bad gateway") {
        VersionServerError::Api { status, message } => {
            assert_eq!(status, 502);
            assert_eq!(message, "bad gateway");
        }
        other => panic!("expected raw-text error, got {other:?}"),
    }
}

// Authentication needs the exact bearer header: wrong scheme and wrong
// key are both rejected with their own messages.
#[test]
fn test_authentication_shapes() {
    let mut srv = server();
    let no_header = srv.handle_delete(&None, "demo", "1.0.0");
    assert_eq!(no_header.status, 401);
    let wrong_scheme = srv.handle_delete(&Some("Basic abc".to_string()), "demo", "1.0.0");
    assert_eq!(wrong_scheme.status, 401);
    let wrong_key = srv.handle_delete(&Some("Bearer nope".to_string()), "demo", "1.0.0");
    assert_eq!(wrong_key.status, 401);
    // With the right key the delete proceeds to its own 404.
    let right = srv.handle_delete(&bearer(), "demo", "1.0.0");
    assert_eq!(right.status, 404);
}

// Chunking: boundaries at, below and above the chunk size; the chunks
// concatenate back to the data.
#[test]
fn test_chunking() {
    let data: Vec<u8> = (0..5u8).collect();
    let chunks = chunk_bytes(&data, 2);
    assert_eq!(chunks, vec![vec![0u8, 1], vec![2u8, 3], vec![4u8]]);
    assert_eq!(chunk_bytes(&Vec::new(), 2), Vec::<Vec<u8>>::new());
    assert_eq!(chunk_bytes(&data, 5), vec![data.clone()]);
    assert_eq!(chunk_bytes(&data, 9), vec![data.clone()]);
    assert!(CHUNK_SIZE == 50 * 1024 * 1024);

    // An empty artifact still round-trips through the multipart path.
    let mut srv = server();
    let c = client();
    c.upload_version(&mut srv, "demo", "1.0.0", &vec![("macos-arm".to_string(), Vec::new())])
        .unwrap();
    let got = c.download_version(&mut srv, "demo", "macos-arm", "1.0.0").unwrap();
    assert!(got.is_empty());
}

// The deterministic addressing scheme and the client's base-url trimming.
#[test]
fn test_key_and_base_url() {
    assert_eq!(artifact_key("demo", "1.0.0", "macos-arm"), "demo/1.0.0/demo-macos-arm.zip");
    let c = VersionServerClient::new("https://example.test///");
    assert_eq!(c.base_url(), "https://example.test");
}

// Invalid name components are refused by the coordinator with a 400,
// which the client surfaces as a structured API error.
#[test]
fn test_invalid_components_rejected() {
    let mut srv = server();
    let c = client();
    let files = vec![("macos-arm".to_string(), vec![1u8])];
    match c.upload_version(&mut srv, "bad/app", "1.0.0", &files) {
        Err(VersionServerError::Api { status: 400, .. }) => {}
        other => panic!("expected a 400, got {other:?}"),
    }
    match c.upload_version(&mut srv, "demo", "1/0", &files) {
        Err(VersionServerError::Api { status: 400, .. }) => {}
        other => panic!("expected a 400, got {other:?}"),
    }
    assert!(c.list_versions(&mut srv, "bad/app").unwrap().is_empty());
}
