use tronctl::error::TronCtlError;
use tronctl::health::{
    is_strictly_increasing, parse_block_height, parse_first_tag_name, rpc_outcome, HealthChecker,
};

#[test]
fn growing_heights_mean_syncing() {
    // Three samples at the fixed interval: 100, 105, 110 is progress.
    assert_eq!(
        HealthChecker::check_block_syncing(&vec![Some(100), Some(105), Some(110)]).unwrap(),
        true
    );
}

#[test]
fn a_stall_means_not_syncing() {
    // 100, 100, 105 stalls between the first two samples.
    assert_eq!(
        HealthChecker::check_block_syncing(&vec![Some(100), Some(100), Some(105)]).unwrap(),
        false
    );
}

#[test]
fn a_failed_sample_aborts_the_sync_check() {
    let r = HealthChecker::check_block_syncing(&vec![Some(100), None, Some(110)]);
    assert!(matches!(r, Err(TronCtlError::RpcCallFailed(_))));
}

#[test]
fn strict_increase_judgment() {
    assert!(is_strictly_increasing(&vec![1, 2, 3]));
    assert!(is_strictly_increasing(&vec![]));
    assert!(is_strictly_increasing(&vec![7]));
    assert!(!is_strictly_increasing(&vec![3, 3]));
    assert!(!is_strictly_increasing(&vec![5, 4, 6]));
}

#[test]
fn dead_process_reports_nothing() {
    let status = HealthChecker::judge(false, Some(12345));
    assert!(!status.process_alive);
    assert!(!status.rpc_responding);
    assert!(!status.block_syncing);
    assert_eq!(status.current_block, 0);
    assert_eq!(status.previous_block, 0);
}

#[test]
fn live_process_reports_rpc_height() {
    let up = HealthChecker::judge(true, Some(42));
    assert!(up.process_alive);
    assert!(up.rpc_responding);
    assert_eq!(up.current_block, 42);

    let mute = HealthChecker::judge(true, None);
    assert!(mute.process_alive);
    assert!(!mute.rpc_responding);
    assert_eq!(mute.current_block, 0);
}

#[test]
fn check_composes_probe_and_judgment() {
    // A surely-dead identifier: everything false and zero.
    let status = HealthChecker::check(999999, Some(7));
    assert!(!status.process_alive);
    assert!(!status.rpc_responding);
    assert_eq!(status.current_block, 0);
}

#[test]
fn rpc_outcome_judgments() {
    assert_eq!(rpc_outcome(200, Some(7)).unwrap(), 7);
    assert!(matches!(rpc_outcome(500, Some(7)), Err(TronCtlError::RpcCallFailed(_))));
    assert!(matches!(rpc_outcome(200, None), Err(TronCtlError::HttpError(_))));
}

#[test]
fn block_height_read_from_node_answer() {
    let body = r#"{
        "block_header": {
            "raw_data": {
                "number": 99999,
                "timestamp": 1704985200000
            }
        }
    }"#;
    assert_eq!(parse_block_height(body), Some(99999));
    assert_eq!(parse_block_height("not json"), None);
    assert_eq!(parse_block_height("{}"), None);
    assert_eq!(parse_block_height(r#"{"block_header":{"raw_data":{}}}"#), None);
}

#[test]
fn first_release_tag_read_from_listing() {
    let body = r#"[{"tag_name": "GreatVoyage-v4.7.4"}, {"tag_name": "older"}]"#;
    assert_eq!(parse_first_tag_name(body), Some("GreatVoyage-v4.7.4".to_string()));
    assert_eq!(parse_first_tag_name("[]"), None);
    assert_eq!(parse_first_tag_name("{}"), None);
}
