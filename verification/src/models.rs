//! Plain data carried between the components: configuration, health samples,
//! block headers, snapshot candidates and node state.

use vstd::prelude::*;

use crate::constants;

verus! {

/// The tool's own persisted settings. Paths are held as plain strings; the
/// shell around the library turns them into filesystem paths.
#[derive(Debug, Clone)]
pub struct TronCtlConfig {
    pub java_path: String,
    pub jvm_min_heap: String,
    pub jvm_max_heap: String,
    pub fullnode_jar: String,
    pub node_config: String,
    pub data_dir: String,
    pub log_file: String,
    pub snapshot_type: String,
}

impl Default for TronCtlConfig {
    /// The stock configuration: system java, the standard directories, no snapshot.
    fn default() -> (r: Self)
        ensures
            r.java_path@ == "/usr/bin/java"@,
            r.jvm_min_heap@ == constants::DEFAULT_JVM_MIN_HEAP@,
            r.jvm_max_heap@ == constants::DEFAULT_JVM_MAX_HEAP@,
            r.fullnode_jar@ == constants::DATA_DIR@ + "/FullNode.jar"@,
            r.node_config@ == constants::CONFIG_DIR@ + "/"@ + constants::NODE_CONFIG@,
            r.data_dir@ == constants::DATA_DIR@ + "/data"@,
            r.log_file@ == constants::LOG_DIR@ + "/fullnode.log"@,
            r.snapshot_type@ == "none"@,
    {
        let mut fullnode_jar = String::from_str(constants::DATA_DIR);
        fullnode_jar.append("/FullNode.jar");
        let mut node_config = String::from_str(constants::CONFIG_DIR);
        node_config.append("/");
        node_config.append(constants::NODE_CONFIG);
        let mut data_dir = String::from_str(constants::DATA_DIR);
        data_dir.append("/data");
        let mut log_file = String::from_str(constants::LOG_DIR);
        log_file.append("/fullnode.log");
        TronCtlConfig {
            java_path: String::from_str("/usr/bin/java"),
            jvm_min_heap: String::from_str(constants::DEFAULT_JVM_MIN_HEAP),
            jvm_max_heap: String::from_str(constants::DEFAULT_JVM_MAX_HEAP),
            fullnode_jar,
            node_config,
            data_dir,
            log_file,
            snapshot_type: String::from_str("none"),
        }
    }
}

/// One health check's verdict over the supervised node.
#[derive(Debug, Clone)]
pub struct HealthStatus {
    pub process_alive: bool,
    pub rpc_responding: bool,
    pub block_syncing: bool,
    pub current_block: u64,
    pub previous_block: u64,
}

/// The part of the node's block answer that the monitor reads.
#[derive(Debug, Clone)]
pub struct BlockInfo {
    pub block_header: BlockHeader,
}

#[derive(Debug, Clone)]
pub struct BlockHeader {
    pub raw_data: BlockRawData,
}

#[derive(Debug, Clone)]
pub struct BlockRawData {
    pub number: u64,
    pub timestamp: i64,
}

/// The supervisor's view of the node across its lifecycle.
#[derive(Debug, Clone)]
pub enum NodeStatus {
    NotInitialized,
    Stopped,
    Running { pid: i32 },
    Unhealthy { pid: i32, reason: String },
}

/// One probed snapshot mirror: where it is, how fast it answered, and whether
/// it answered at all. An unreachable mirror carries the sentinel latency.
#[derive(Debug, Clone)]
pub struct SnapshotServer {
    pub url: String,
    pub latency_ms: u64,
    pub available: bool,
}

/// The newest dated snapshot found at a mirror.
#[derive(Debug, Clone)]
pub struct SnapshotMetadata {
    pub date: String,
    pub size_gb: u64,
    pub md5: String,
    pub download_url: String,
}

} // verus!
