use tronctl::models::{BlockHeader, BlockRawData, HealthStatus, SnapshotMetadata, SnapshotServer,
    TronCtlConfig};

#[test]
fn test_health_status_healthy() {
    let status = HealthStatus {
        process_alive: true,
        rpc_responding: true,
        block_syncing: true,
        current_block: 1000,
        previous_block: 999,
    };

    assert!(status.process_alive);
    assert!(status.rpc_responding);
    assert!(status.block_syncing);
    assert_eq!(status.current_block, 1000);
}

#[test]
fn test_health_status_unhealthy() {
    let status = HealthStatus {
        process_alive: true,
        rpc_responding: false,
        block_syncing: false,
        current_block: 500,
        previous_block: 500,
    };

    assert!(!status.rpc_responding);
    assert!(!status.block_syncing);
    assert_eq!(status.current_block, status.previous_block);
}

#[test]
fn test_health_status_clone() {
    let status1 = HealthStatus {
        process_alive: true,
        rpc_responding: false,
        block_syncing: true,
        current_block: 777,
        previous_block: 776,
    };

    let status2 = status1.clone();
    assert_eq!(status2.current_block, 777);
    assert_eq!(status2.previous_block, 776);
    assert_eq!(status2.process_alive, true);
}

#[test]
fn test_block_raw_data_clone() {
    let raw1 = BlockRawData {
        number: 123,
        timestamp: 456,
    };

    let raw2 = raw1.clone();
    assert_eq!(raw2.number, 123);
    assert_eq!(raw2.timestamp, 456);
}

#[test]
fn test_block_header_nested_structure() {
    let header = BlockHeader {
        raw_data: BlockRawData {
            number: 555,
            timestamp: 666,
        },
    };

    let cloned = header.clone();
    assert_eq!(cloned.raw_data.number, 555);
    assert_eq!(cloned.raw_data.timestamp, 666);
}

#[test]
fn test_default_config() {
    let config = TronCtlConfig::default();

    assert_eq!(config.java_path, "/usr/bin/java");
    assert_eq!(config.jvm_min_heap, "8g");
    assert_eq!(config.jvm_max_heap, "12g");
    assert_eq!(config.snapshot_type, "none");
    assert!(config.fullnode_jar.contains("FullNode.jar"));
    assert!(config.data_dir.contains("data"));
}

#[test]
fn test_config_clone() {
    let config1 = TronCtlConfig::default();
    let config2 = config1.clone();

    assert_eq!(config1.java_path, config2.java_path);
    assert_eq!(config1.snapshot_type, config2.snapshot_type);
}

#[test]
fn test_snapshot_server_creation() {
    let server = SnapshotServer {
        url: "http://example.com".to_string(),
        latency_ms: 100,
        available: true,
    };

    assert_eq!(server.url, "http://example.com");
    assert_eq!(server.latency_ms, 100);
    assert!(server.available);
}

#[test]
fn test_snapshot_server_unavailable() {
    let server = SnapshotServer {
        url: "http://slow.com".to_string(),
        latency_ms: 999_000,
        available: false,
    };

    assert!(!server.available);
    assert_eq!(server.latency_ms / 1000, 999);
}

#[test]
fn test_snapshot_metadata_clone() {
    let meta1 = SnapshotMetadata {
        date: "20260109".to_string(),
        size_gb: 53,
        md5: "test".to_string(),
        download_url: "http://test.com".to_string(),
    };

    let meta2 = meta1.clone();
    assert_eq!(meta1.date, meta2.date);
    assert_eq!(meta1.size_gb, meta2.size_gb);
}
