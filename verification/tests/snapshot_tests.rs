use tronctl::error::TronCtlError;
use tronctl::models::SnapshotServer;
use tronctl::snapshot::{parse_md5_token, SnapshotManager};

fn server(url: &str, latency_ms: u64, available: bool) -> SnapshotServer {
    SnapshotServer {
        url: url.to_string(),
        latency_ms,
        available,
    }
}

#[test]
fn fastest_available_mirror_wins() {
    let servers = vec![
        server("http://a", 250, true),
        server("http://b", 40, true),
        server("http://c", 999_000, false),
    ];
    let winner = SnapshotManager::select_fastest_server(&servers).unwrap();
    assert_eq!(winner.url, "http://b");
    assert_eq!(winner.latency_ms, 40);
    assert!(winner.available);
}

#[test]
fn unavailable_mirrors_never_win() {
    let servers = vec![
        server("http://a", 1, false),
        server("http://b", 500, true),
    ];
    let winner = SnapshotManager::select_fastest_server(&servers).unwrap();
    assert_eq!(winner.url, "http://b");
}

#[test]
fn earliest_mirror_wins_latency_ties() {
    let servers = vec![
        server("http://a", 40, true),
        server("http://b", 40, true),
    ];
    let winner = SnapshotManager::select_fastest_server(&servers).unwrap();
    assert_eq!(winner.url, "http://a");
}

#[test]
fn no_reachable_mirror_fails_provisioning() {
    let servers = vec![
        server("http://a", 999_000, false),
        server("http://b", 999_000, false),
    ];
    let r = SnapshotManager::select_fastest_server(&servers);
    assert!(matches!(r, Err(TronCtlError::DownloadFailed(_))));
}

#[test]
fn test_get_latest_snapshot_invalid_type() {
    let result = SnapshotManager::snapshot_type_params("invalid");
    assert!(result.is_err());
    assert!(matches!(result.unwrap_err(), TronCtlError::ConfigError(_)));
}

#[test]
fn snapshot_types_name_their_artifacts() {
    let (size, prefix) = SnapshotManager::snapshot_type_params("lite").unwrap();
    assert_eq!(size, 53);
    assert_eq!(prefix, "LiteFullNode_output-directory");

    let (size, prefix) = SnapshotManager::snapshot_type_params("full").unwrap();
    assert_eq!(size, 2937);
    assert_eq!(prefix, "FullNode_output-directory");
}

#[test]
fn candidate_urls_name_the_dated_artifact() {
    let (url, md5, size) =
        SnapshotManager::snapshot_candidate("http://34.86.86.229", "lite", "20260109").unwrap();
    assert_eq!(
        url,
        "http://34.86.86.229/backup20260109/LiteFullNode_output-directory.tgz"
    );
    assert_eq!(
        md5,
        "http://34.86.86.229/backup20260109/LiteFullNode_output-directory.tgz.md5sum"
    );
    assert_eq!(size, 53);
}

#[test]
fn test_fetch_md5_success() {
    let md5_content = "abc123def456  filename.tgz\n";
    assert_eq!(parse_md5_token(md5_content), "abc123def456");
}

#[test]
fn test_fetch_md5_empty() {
    assert_eq!(parse_md5_token(""), "");
    assert_eq!(parse_md5_token("   \n\t "), "");
}

#[test]
fn md5_token_ignores_leading_whitespace() {
    assert_eq!(parse_md5_token("  \t deadbeef rest"), "deadbeef");
    assert_eq!(parse_md5_token("single"), "single");
}

#[test]
fn found_snapshot_carries_its_fields() {
    let meta = SnapshotManager::found_snapshot("20260109", 53, "abc123", "http://m/f.tgz");
    assert_eq!(meta.date, "20260109");
    assert_eq!(meta.size_gb, 53);
    assert_eq!(meta.md5, "abc123");
    assert_eq!(meta.download_url, "http://m/f.tgz");
}
