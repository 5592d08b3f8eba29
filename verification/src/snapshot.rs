//! The snapshot source selector: choosing the fastest reachable mirror and
//! naming the dated artifact to fetch from it. The shell probes the mirrors
//! and the candidate URLs over the network; which mirror wins, which URLs
//! are tried and how the digest file is read are decided here.

use vstd::prelude::*;

use crate::error::TronCtlError;
use crate::models::{SnapshotMetadata, SnapshotServer};

verus! {

/// Do two probe records describe the same mirror state?
pub open spec fn spec_server_eq(a: SnapshotServer, b: SnapshotServer) -> bool {
    &&& a.url@ == b.url@
    &&& a.latency_ms == b.latency_ms
    &&& a.available == b.available
}

/// The snapshot source selector.
pub struct SnapshotManager;

impl SnapshotManager {
    /// Pick the mirror to download from: the available one with the lowest
    /// measured latency, the earliest probed winning ties; with no mirror
    /// available the provisioning fails.
    pub fn select_fastest_server(servers: &Vec<SnapshotServer>) -> (r: Result<
        SnapshotServer,
        TronCtlError,
    >)
        ensures
            r is Ok <==> (exists|i: int|
                0 <= i < servers@.len() && (#[trigger] servers@[i]).available),
            r matches Ok(s) ==> (exists|i: int|
                {
                    &&& 0 <= i < servers@.len()
                    &&& spec_server_eq(s, #[trigger] servers@[i])
                    &&& servers@[i].available
                    &&& forall|j: int|
                        0 <= j < servers@.len() && (#[trigger] servers@[j]).available
                            ==> servers@[i].latency_ms <= servers@[j].latency_ms
                    &&& forall|j: int|
                        0 <= j < i && (#[trigger] servers@[j]).available ==> servers@[j].latency_ms
                            > servers@[i].latency_ms
                }),
            r matches Err(e) ==> e is DownloadFailed,
    {
        let n = servers.len();
        let mut best: Option<usize> = Option::None;
        let mut i: usize = 0;
        while i < n
            invariant
                0 <= i <= n,
                n == servers@.len(),
                match best {
                    Option::Some(b) => {
                        &&& 0 <= b < i
                        &&& servers@[b as int].available
                        &&& forall|j: int|
                            0 <= j < i && (#[trigger] servers@[j]).available
                                ==> servers@[b as int].latency_ms <= servers@[j].latency_ms
                        &&& forall|j: int|
                            0 <= j < b && (#[trigger] servers@[j]).available
                                ==> servers@[j].latency_ms > servers@[b as int].latency_ms
                    },
                    Option::None => forall|j: int|
                        0 <= j < i ==> !(#[trigger] servers@[j]).available,
                },
            decreases n - i,
        {
            let candidate = &servers[i];
            if candidate.available {
                let better = match best {
                    Option::Some(b) => candidate.latency_ms < servers[b].latency_ms,
                    Option::None => true,
                };
                if better {
                    best = Option::Some(i);
                }
            }
            i = i + 1;
        }
        match best {
            Option::Some(b) => {
                let winner = &servers[b];
                Ok(
                    SnapshotServer {
                        url: winner.url.clone(),
                        latency_ms: winner.latency_ms,
                        available: winner.available,
                    },
                )
            },
            Option::None => Err(
                TronCtlError::DownloadFailed(
                    String::from_str("无可用快照服务器"),
                ),
            ),
        }
    }

    /// The size and artifact prefix a snapshot type stands for; any other
    /// type is a configuration error.
    pub fn snapshot_type_params(snapshot_type: &str) -> (r: Result<(u64, &'static str), TronCtlError>)
        ensures
            r is Ok <==> (snapshot_type@ == "lite"@ || snapshot_type@ == "full"@),
            snapshot_type@ == "lite"@ ==> (r matches Ok(p) && p.0 == 53 && p.1@
                == "LiteFullNode_output-directory"@),
            snapshot_type@ == "full"@ ==> (r matches Ok(p) && p.0 == 2937 && p.1@
                == "FullNode_output-directory"@),
            r matches Err(e) ==> e is ConfigError,
    {
        proof {
            reveal_strlit("lite");
            reveal_strlit("full");
            assert("lite"@ != "full"@) by {
                assert("lite"@[0] == 'l' && "full"@[0] == 'f');
            }
        }
        let t = snapshot_type.to_owned();
        if t.eq(&String::from_str("lite")) {
            Ok((53, "LiteFullNode_output-directory"))
        } else if t.eq(&String::from_str("full")) {
            Ok((2937, "FullNode_output-directory"))
        } else {
            let mut msg = String::from_str("无效的快照类型: ");
            msg.append(snapshot_type);
            Err(TronCtlError::ConfigError(msg))
        }
    }

    /// The URL of the dated snapshot artifact at a mirror.
    pub fn build_snapshot_url(server_url: &str, date: &str, prefix: &str) -> (r: String)
        ensures
            r@ == server_url@ + "/backup"@ + date@ + "/"@ + prefix@ + ".tgz"@,
    {
        let mut s = String::from_str(server_url);
        s.append("/backup");
        s.append(date);
        s.append("/");
        s.append(prefix);
        s.append(".tgz");
        s
    }

    /// The URL of an artifact's digest file.
    pub fn md5sum_url(snapshot_url: &str) -> (r: String)
        ensures
            r@ == snapshot_url@ + ".md5sum"@,
    {
        let mut s = String::from_str(snapshot_url);
        s.append(".md5sum");
        s
    }

    /// Name one dated candidate: the artifact URL, its digest file's URL and
    /// the advertised size for the snapshot type; an unknown type is a
    /// configuration error.
    pub fn snapshot_candidate(server_url: &str, snapshot_type: &str, date: &str) -> (r: Result<
        (String, String, u64),
        TronCtlError,
    >)
        ensures
            r is Ok <==> (snapshot_type@ == "lite"@ || snapshot_type@ == "full"@),
            r matches Ok(c) ==> ({
                &&& (snapshot_type@ == "lite"@ ==> c.0@ == server_url@ + "/backup"@ + date@ + "/"@
                    + "LiteFullNode_output-directory"@ + ".tgz"@ && c.2 == 53)
                &&& (snapshot_type@ == "full"@ ==> c.0@ == server_url@ + "/backup"@ + date@ + "/"@
                    + "FullNode_output-directory"@ + ".tgz"@ && c.2 == 2937)
                &&& c.1@ == c.0@ + ".md5sum"@
            }),
            r matches Err(e) ==> e is ConfigError,
    {
        let (size_gb, prefix) = match Self::snapshot_type_params(snapshot_type) {
            Err(e) => {
                return Err(e);
            },
            Ok(p) => p,
        };
        let url = Self::build_snapshot_url(server_url, date, prefix);
        let md5 = Self::md5sum_url(url.as_str());
        Ok((url, md5, size_gb))
    }

    /// Assemble the metadata of a found snapshot.
    pub fn found_snapshot(date: &str, size_gb: u64, md5: &str, download_url: &str) -> (r:
        SnapshotMetadata)
        ensures
            r.date@ == date@,
            r.size_gb == size_gb,
            r.md5@ == md5@,
            r.download_url@ == download_url@,
    {
        SnapshotMetadata {
            date: date.to_owned(),
            size_gb,
            md5: md5.to_owned(),
            download_url: download_url.to_owned(),
        }
    }
}

// ---------------------------------------------------------------------------
// Reading a digest file's body.
// ---------------------------------------------------------------------------

/// Whitespace as a digest file separates its columns with it.
pub open spec fn spec_is_ws_char(c: char) -> bool {
    c == ' ' || c == '\t' || c == '\n' || c == '\r'
}

/// The first index at or after `i` holding a non-whitespace character.
pub open spec fn spec_skip_ws(s: Seq<char>, i: int) -> int
    decreases s.len() - i,
{
    if 0 <= i < s.len() && spec_is_ws_char(s[i]) {
        spec_skip_ws(s, i + 1)
    } else {
        i
    }
}

/// The first index at or after `i` holding whitespace (or the end).
pub open spec fn spec_token_end(s: Seq<char>, i: int) -> int
    decreases s.len() - i,
{
    if 0 <= i < s.len() && !spec_is_ws_char(s[i]) {
        spec_token_end(s, i + 1)
    } else {
        i
    }
}

/// The first whitespace-separated token of the text (empty when there is
/// none).
pub open spec fn spec_first_token(s: Seq<char>) -> Seq<char> {
    s.subrange(spec_skip_ws(s, 0), spec_token_end(s, spec_skip_ws(s, 0)))
}

fn is_ws_char(c: char) -> (r: bool)
    ensures
        r == spec_is_ws_char(c),
{
    c == ' ' || c == '\t' || c == '\n' || c == '\r'
}

/// The digest a fetched md5sum body names: its first whitespace-separated
/// token. A digest file is plain ASCII; any other body yields the empty
/// digest, which then simply fails to match anything.
pub fn parse_md5_token(text: &str) -> (r: String)
    ensures
        text.is_ascii() ==> r@ == spec_first_token(text@),
        !text.is_ascii() ==> r@ == Seq::<char>::empty(),
{
    if !text.is_ascii() {
        return String::new();
    }
    proof {
        vstd::string::is_ascii_spec_bytes(text);
    }
    let n = text.unicode_len();
    let mut a: usize = 0;
    while a < n && is_ws_char(text.get_char(a))
        invariant
            0 <= a <= n,
            n == text@.len(),
            spec_skip_ws(text@, 0) == spec_skip_ws(text@, a as int),
        decreases n - a,
    {
        a = a + 1;
    }
    let mut b: usize = a;
    while b < n && !is_ws_char(text.get_char(b))
        invariant
            a <= b <= n,
            n == text@.len(),
            spec_skip_ws(text@, 0) == a as int,
            spec_token_end(text@, a as int) == spec_token_end(text@, b as int),
        decreases n - b,
    {
        b = b + 1;
    }
    text.substring_ascii(a, b).to_owned()
}

} // verus!
