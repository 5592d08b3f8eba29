//! The health monitor: judging liveness, RPC responsiveness and sync
//! progression. The shell fetches the node's block answer over its local RPC
//! endpoint; every verdict about what the samples mean is made here.

use vstd::prelude::*;

use crate::error::TronCtlError;
use crate::models::HealthStatus;
use crate::strutil::u64_to_string;

verus! {

// ---------------------------------------------------------------------------
// Reading the node's JSON answers, through serde_json.
// ---------------------------------------------------------------------------

/// What the node's JSON block answer holds as the numeric field at
/// `block_header.raw_data.number`, or nothing when it has no such shape: a
/// function of the body text alone.
pub uninterp spec fn block_height_of(body: Seq<char>) -> Option<u64>;

/// Relies on serde_json's from_str and Value::get / Value::as_u64: the
/// numeric field at `block_header.raw_data.number` of the parsed body, or
/// nothing when the body is malformed or shaped otherwise.
#[verifier::external_body]
pub fn parse_block_height(body: &str) -> (r: Option<u64>)
    ensures
        r == block_height_of(body@),
{
    serde_json::from_str::<serde_json::Value>(body)
        .ok()
        .and_then(|v| v.get("block_header")?.get("raw_data")?.get("number")?.as_u64())
}

/// What a release-list answer holds as the `tag_name` string of its first
/// element, or nothing: a function of the body text alone.
pub uninterp spec fn first_tag_name_of(body: Seq<char>) -> Option<Seq<char>>;

/// Relies on serde_json's from_str and Value::get / Value::as_str: the
/// `tag_name` string of the listing's first element, or nothing when the
/// body is malformed or shaped otherwise.
#[verifier::external_body]
pub fn parse_first_tag_name(body: &str) -> (r: Option<String>)
    ensures
        r.deep_view() == first_tag_name_of(body@),
{
    serde_json::from_str::<serde_json::Value>(body)
        .ok()
        .and_then(|v| Some(v.get(0)?.get("tag_name")?.as_str()?.to_owned()))
}

// ---------------------------------------------------------------------------
// Judging the samples.
// ---------------------------------------------------------------------------

/// Judge one RPC exchange: a failed status is an RPC failure naming it, a
/// success whose body carried no height is a malformed answer, and
/// otherwise the height comes back.
pub fn rpc_outcome(status: u16, height: Option<u64>) -> (r: Result<u64, TronCtlError>)
    ensures
        r is Ok <==> (200 <= status < 300 && height is Some),
        r matches Ok(h) ==> height == Option::Some(h),
        r matches Err(e) ==> if 200 <= status < 300 {
            e is HttpError
        } else {
            e is RpcCallFailed
        },
{
    if !(200 <= status && status < 300) {
        let mut msg = String::from_str("HTTP ");
        msg.append(u64_to_string(status as u64).as_str());
        return Err(TronCtlError::RpcCallFailed(msg));
    }
    match height {
        Option::Some(h) => Ok(h),
        Option::None => Err(
            TronCtlError::HttpError(String::from_str("无法解析区块响应")),
        ),
    }
}

/// The verdict the monitor owes for one check: a dead process answers
/// nothing, and no other field may claim otherwise; a live one is judged by
/// whether the RPC answered and what height it reported.
pub open spec fn spec_judge(alive: bool, rpc_height: Option<u64>) -> HealthStatus {
    if !alive {
        HealthStatus {
            process_alive: false,
            rpc_responding: false,
            block_syncing: false,
            current_block: 0,
            previous_block: 0,
        }
    } else {
        HealthStatus {
            process_alive: true,
            rpc_responding: rpc_height is Some,
            block_syncing: false,
            current_block: match rpc_height {
                Option::Some(h) => h,
                Option::None => 0,
            },
            previous_block: 0,
        }
    }
}

/// The health monitor.
pub struct HealthChecker;

impl HealthChecker {
    /// Is the supervised process alive? The same no-op signal probe the
    /// supervisor uses.
    pub fn check_liveness(pid: i32) -> bool {
        crate::process::ProcessManager::is_process_alive(pid)
    }

    /// Judge a health check from its raw observations: liveness, and the
    /// height the RPC endpoint reported, if it answered. The height is
    /// ignored for a dead process, whose report is all-false and zero.
    pub fn judge(alive: bool, rpc_height: Option<u64>) -> (r: HealthStatus)
        ensures
            r == spec_judge(alive, rpc_height),
    {
        if !alive {
            HealthStatus {
                process_alive: false,
                rpc_responding: false,
                block_syncing: false,
                current_block: 0,
                previous_block: 0,
            }
        } else {
            match rpc_height {
                Option::Some(h) => HealthStatus {
                    process_alive: true,
                    rpc_responding: true,
                    block_syncing: false,
                    current_block: h,
                    previous_block: 0,
                },
                Option::None => HealthStatus {
                    process_alive: true,
                    rpc_responding: false,
                    block_syncing: false,
                    current_block: 0,
                    previous_block: 0,
                },
            }
        }
    }

    /// Check the node: probe the process, then judge it together with the
    /// height the caller's RPC exchange produced (which is only consulted
    /// for a live process).
    pub fn check(pid: i32, rpc_height: Option<u64>) -> (r: HealthStatus)
        ensures
            !r.process_alive ==> r == spec_judge(false, rpc_height),
            r.process_alive ==> r == spec_judge(true, rpc_height),
    {
        let alive = Self::check_liveness(pid);
        Self::judge(alive, rpc_height)
    }

    /// Judge a sync check from its height samples, taken a fixed interval
    /// apart: any failed sample aborts the check with an error — it never
    /// reports "not syncing" for a failure — and with every sample in hand
    /// the node is syncing exactly when every consecutive pair of heights
    /// strictly increased.
    pub fn check_block_syncing(samples: &Vec<Option<u64>>) -> (r: Result<bool, TronCtlError>)
        ensures
            r is Ok <==> (forall|i: int| 0 <= i < samples@.len() ==> (#[trigger] samples@[i]) is Some),
            r matches Ok(b) ==> b == spec_strictly_increasing(spec_sample_heights(samples@)),
            r matches Err(e) ==> e is RpcCallFailed,
    {
        let n = samples.len();
        let mut heights: Vec<u64> = Vec::new();
        let mut i: usize = 0;
        while i < n
            invariant
                0 <= i <= n,
                n == samples@.len(),
                forall|j: int| 0 <= j < i ==> (#[trigger] samples@[j]) is Some,
                heights@ == spec_sample_heights(samples@.take(i as int)),
            decreases n - i,
        {
            match samples[i] {
                Option::Some(h) => {
                    heights.push(h);
                },
                Option::None => {
                    return Err(
                        TronCtlError::RpcCallFailed(
                            String::from_str("区块高度采样失败"),
                        ),
                    );
                },
            }
            proof {
                assert(spec_sample_heights(samples@.take(i + 1)) =~= spec_sample_heights(
                    samples@.take(i as int),
                ).push(samples@[i as int].unwrap()));
            }
            i = i + 1;
        }
        proof {
            assert(samples@.take(n as int) =~= samples@);
        }
        Ok(is_strictly_increasing(&heights))
    }
}

/// The heights a sample run produced, in order.
pub open spec fn spec_sample_heights(samples: Seq<Option<u64>>) -> Seq<u64> {
    samples.map_values(
        |o: Option<u64>|
            match o {
                Option::Some(h) => h,
                Option::None => 0,
            },
    )
}

/// Is every consecutive pair of heights strictly increasing?
pub open spec fn spec_strictly_increasing(s: Seq<u64>) -> bool {
    forall|i: int| 0 <= i < s.len() - 1 ==> #[trigger] s[i] < s[i + 1]
}

/// Does the height sequence grow strictly at every step? An empty or
/// single-sample run counts as growing, as a window of no pairs.
pub fn is_strictly_increasing(heights: &Vec<u64>) -> (b: bool)
    ensures
        b == spec_strictly_increasing(heights@),
{
    let n = heights.len();
    if n < 2 {
        return true;
    }
    let mut i: usize = 0;
    while i < n - 1
        invariant
            2 <= n,
            0 <= i <= n - 1,
            n == heights@.len(),
            forall|j: int| 0 <= j < i ==> #[trigger] heights@[j] < heights@[j + 1],
        decreases n - i,
    {
        if heights[i] >= heights[i + 1] {
            return false;
        }
        i = i + 1;
    }
    true
}

} // verus!
