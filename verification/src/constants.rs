//! Fixed locations, remote endpoints and tuning knobs shared by the whole tool.

use vstd::prelude::*;

verus! {

pub const DATA_DIR: &'static str = "/var/lib/tronctl";

pub const CONFIG_DIR: &'static str = "/etc/tronctl";

pub const LOG_DIR: &'static str = "/var/log/tronctl";

pub const PID_FILE: &'static str = "/run/tronctl/tronctl.pid";

pub const NODE_CONFIG: &'static str = "tron.conf";

pub const APP_CONFIG: &'static str = "tronctl.toml";

pub const REQUIRED_JAVA_VERSION: &'static str = "1.8";

pub const RECOMMENDED_MEMORY_GB: u64 = 32;

pub const RECOMMENDED_DISK_GB: u64 = 2560;

pub const GITHUB_REPO: &'static str = "tronprotocol/java-tron";

pub const GITHUB_API_RELEASES: &'static str =
    "https://api.github.com/repos/tronprotocol/java-tron/releases";

pub const DEFAULT_JVM_MIN_HEAP: &'static str = "8g";

pub const DEFAULT_JVM_MAX_HEAP: &'static str = "12g";

pub const RPC_ENDPOINT: &'static str = "http://127.0.0.1:8090/wallet/getnowblock";

pub const HEALTH_CHECK_INTERVAL_SECS: u64 = 5;

pub const BLOCK_HEIGHT_CHECK_COUNT: usize = 3;

/// The candidate snapshot mirrors that provisioning probes, in a fixed order.
pub fn snapshot_servers() -> (r: Vec<&'static str>)
    ensures
        r@.len() == 3,
        r@[0]@ == "http://34.143.247.77"@,
        r@[1]@ == "http://34.86.86.229"@,
        r@[2]@ == "http://35.247.128.170"@,
{
    let mut v: Vec<&'static str> = Vec::new();
    v.push("http://34.143.247.77");
    v.push("http://34.86.86.229");
    v.push("http://35.247.128.170");
    v
}

} // verus!
