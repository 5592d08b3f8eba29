//! The process supervisor: the PID record guarded by an exclusive lock, the
//! liveness probe, and the graceful-then-forced stop escalation.
//!
//! The supervised child itself is spawned by the shell around the library;
//! the library owns every decision: whether a start may proceed, what the
//! record holds, and when the forceful signal is due.

use vstd::prelude::*;

use crate::constants::PID_FILE;
use crate::error::TronCtlError;
use crate::strutil::u64_to_dec_bytes;

verus! {

/// The directory holding the PID record.
pub const PID_DIR: &'static str = "/run/tronctl";

// ---------------------------------------------------------------------------
// Trusted wrappers over the operating-system calls the supervisor needs.
// ---------------------------------------------------------------------------

/// Relies on nix's signal::kill with no signal: delivery succeeds only
/// against an existing, reachable process. Any failure (including a
/// permission error) counts as "not alive", by design.
#[verifier::external_body]
fn probe_process(pid: i32) -> bool {
    nix::sys::signal::kill(nix::unistd::Pid::from_raw(pid), None).is_ok()
}

/// Relies on nix's signal::kill sending SIGTERM: asks the process to exit.
#[verifier::external_body]
fn send_sigterm(pid: i32) -> Result<(), String> {
    nix::sys::signal::kill(nix::unistd::Pid::from_raw(pid), nix::sys::signal::Signal::SIGTERM)
        .map_err(|e| e.to_string())
}

/// Relies on nix's signal::kill sending SIGKILL: ends the process at once.
#[verifier::external_body]
fn send_sigkill(pid: i32) -> Result<(), String> {
    nix::sys::signal::kill(nix::unistd::Pid::from_raw(pid), nix::sys::signal::Signal::SIGKILL)
        .map_err(|e| e.to_string())
}

/// Relies on nix's unistd::sleep: blocks for about the given seconds.
#[verifier::external_body]
fn sleep_secs(secs: u32) {
    nix::unistd::sleep(secs);
}

/// Relies on nix's stat::stat: whether a path currently exists.
#[verifier::external_body]
fn path_exists(path: &str) -> bool {
    nix::sys::stat::stat(path).is_ok()
}

/// Relies on nix's unistd::mkdir: creates one directory level.
#[verifier::external_body]
fn fs_mkdir(path: &str) -> Result<(), String> {
    nix::unistd::mkdir(path, nix::sys::stat::Mode::from_bits_truncate(0o755)).map_err(
        |e| e.to_string(),
    )
}

/// Relies on nix's fcntl::open: opens (creating if absent) for read and
/// write, returning the raw descriptor.
#[verifier::external_body]
fn fs_open_rw_create(path: &str) -> Result<i32, String> {
    nix::fcntl::open(
        path,
        nix::fcntl::OFlag::O_RDWR | nix::fcntl::OFlag::O_CREAT,
        nix::sys::stat::Mode::from_bits_truncate(0o644),
    ).map_err(|e| e.to_string())
}

/// Relies on nix's fcntl::open: opens read-only.
#[verifier::external_body]
fn fs_open_read(path: &str) -> Result<i32, String> {
    nix::fcntl::open(
        path,
        nix::fcntl::OFlag::O_RDONLY,
        nix::sys::stat::Mode::empty(),
    ).map_err(|e| e.to_string())
}

/// Relies on nix's fcntl::flock: takes the exclusive advisory lock without
/// blocking; false when another holder has it.
#[verifier::external_body]
fn fs_try_lock_exclusive(fd: i32) -> bool {
    nix::fcntl::flock(fd, nix::fcntl::FlockArg::LockExclusiveNonblock).is_ok()
}

/// Relies on nix's unistd::read: reads at most `max` bytes from the current
/// position; an empty result is end of file.
#[verifier::external_body]
fn fs_read_chunk(fd: i32, max: usize) -> (r: Result<Vec<u8>, String>)
    ensures
        r matches Ok(v) ==> v@.len() <= max,
{
    let mut buf = vec![0u8; max];
    match nix::unistd::read(fd, &mut buf) {
        Ok(n) => {
            buf.truncate(n);
            Ok(buf)
        },
        Err(e) => Err(e.to_string()),
    }
}

/// Relies on nix's unistd::write: writes some of `data` from `offset` on,
/// returning how many bytes were taken.
#[verifier::external_body]
fn fs_write_from(fd: i32, data: &Vec<u8>, offset: usize) -> (r: Result<usize, String>)
    requires
        offset <= data@.len(),
    ensures
        r matches Ok(n) ==> n <= data@.len() - offset,
{
    nix::unistd::write(fd, &data.as_slice()[offset..]).map_err(|e| e.to_string())
}

/// Relies on nix's unistd::ftruncate: empties the file.
#[verifier::external_body]
fn fs_truncate(fd: i32) -> Result<(), String> {
    nix::unistd::ftruncate(fd, 0).map_err(|e| e.to_string())
}

/// Relies on nix's unistd::lseek: rewinds to the file's start.
#[verifier::external_body]
fn fs_seek_start(fd: i32) -> Result<(), String> {
    nix::unistd::lseek(fd, 0, nix::unistd::Whence::SeekSet).map(|_| ()).map_err(|e| e.to_string())
}

/// Relies on nix's unistd::fsync: flushes the descriptor to disk.
#[verifier::external_body]
fn fs_fsync(fd: i32) -> Result<(), String> {
    nix::unistd::fsync(fd).map_err(|e| e.to_string())
}

/// Relies on nix's unistd::close: closes the descriptor, releasing any lock
/// held through it.
#[verifier::external_body]
fn fs_close(fd: i32) {
    let _ = nix::unistd::close(fd);
}

/// Relies on nix's unistd::unlink: removes the file.
#[verifier::external_body]
fn fs_unlink(path: &str) -> Result<(), String> {
    nix::unistd::unlink(path).map_err(|e| e.to_string())
}

// ---------------------------------------------------------------------------
// Parsing and rendering the PID record's content.
// ---------------------------------------------------------------------------

/// ASCII whitespace as a PID record may carry it around the digits.
pub open spec fn spec_is_ws(b: u8) -> bool {
    b == 32 || b == 9 || b == 10 || b == 13
}

/// The byte sequence without its leading whitespace.
pub open spec fn spec_trim_front(s: Seq<u8>) -> Seq<u8>
    decreases s.len(),
{
    if s.len() > 0 && spec_is_ws(s[0]) {
        spec_trim_front(s.drop_first())
    } else {
        s
    }
}

/// The byte sequence without its trailing whitespace.
pub open spec fn spec_trim_back(s: Seq<u8>) -> Seq<u8>
    decreases s.len(),
{
    if s.len() > 0 && spec_is_ws(s.last()) {
        spec_trim_back(s.drop_last())
    } else {
        s
    }
}

/// The byte sequence without surrounding whitespace.
pub open spec fn spec_trimmed(s: Seq<u8>) -> Seq<u8> {
    spec_trim_back(spec_trim_front(s))
}

/// Are all bytes decimal digits?
pub open spec fn spec_all_digits(s: Seq<u8>) -> bool {
    forall|i: int| 0 <= i < s.len() ==> 48 <= #[trigger] s[i] <= 57
}

/// The number the digit bytes denote, most significant first.
pub open spec fn spec_digits_val(s: Seq<u8>) -> int
    decreases s.len(),
{
    if s.len() == 0 {
        0
    } else {
        spec_digits_val(s.drop_last()) * 10 + (s.last() - 48)
    }
}

proof fn lemma_digits_val_nonneg(s: Seq<u8>)
    requires
        spec_all_digits(s),
    ensures
        spec_digits_val(s) >= 0,
    decreases s.len(),
{
    if s.len() > 0 {
        assert(spec_all_digits(s.drop_last())) by {
            assert(forall|i: int| 0 <= i < s.len() - 1 ==> s.drop_last()[i] == s[i]);
        }
        lemma_digits_val_nonneg(s.drop_last());
    }
}

/// A digit string's value only grows as digits are appended.
proof fn lemma_digits_val_prefix_le(s: Seq<u8>, k: int)
    requires
        spec_all_digits(s),
        0 <= k <= s.len(),
    ensures
        spec_digits_val(s.take(k)) <= spec_digits_val(s),
    decreases s.len() - k,
{
    if k < s.len() {
        lemma_digits_val_prefix_le(s, k + 1);
        assert(s.take(k + 1).drop_last() =~= s.take(k));
        assert(spec_all_digits(s.take(k))) by {
            assert(forall|i: int| 0 <= i < k ==> s.take(k)[i] == s[i]);
        }
        lemma_digits_val_nonneg(s.take(k));
    } else {
        assert(s.take(k) =~= s);
    }
}

/// Parse a PID record's bytes: surrounding whitespace is ignored; the rest
/// must be plain decimal digits denoting a value that fits.
pub fn parse_pid_bytes(content: &Vec<u8>) -> (r: Option<i32>)
    ensures
        ({
            let t = spec_trimmed(content@);
            match r {
                Option::Some(v) => t.len() > 0 && spec_all_digits(t) && spec_digits_val(t)
                    == v as int && v >= 0,
                Option::None => t.len() == 0 || !spec_all_digits(t) || spec_digits_val(t)
                    > i32::MAX as int,
            }
        }),
{
    let n = content.len();
    // Skip leading whitespace.
    let mut start: usize = 0;
    proof {
        assert(content@.skip(0) =~= content@);
    }
    while start < n && is_ws(content[start])
        invariant
            0 <= start <= n,
            n == content@.len(),
            spec_trim_front(content@) == spec_trim_front(content@.skip(start as int)),
        decreases n - start,
    {
        proof {
            assert(content@.skip(start as int).drop_first() =~= content@.skip(start as int + 1));
        }
        start = start + 1;
    }
    let ghost tf = spec_trim_front(content@);
    proof {
        assert(tf == content@.skip(start as int));
    }
    // Drop trailing whitespace.
    let mut end: usize = n;
    proof {
        assert(content@.subrange(start as int, end as int) =~= tf);
    }
    while end > start && is_ws(content[end - 1])
        invariant
            start <= end <= n,
            n == content@.len(),
            tf == spec_trim_front(content@),
            tf == content@.skip(start as int),
            spec_trim_back(tf) == spec_trim_back(content@.subrange(start as int, end as int)),
        decreases end,
    {
        proof {
            assert(content@.subrange(start as int, end as int).drop_last() =~= content@.subrange(
                start as int,
                end as int - 1,
            ));
            assert(content@.subrange(start as int, end as int).last() == content@[end - 1]);
        }
        end = end - 1;
    }
    let ghost t = spec_trimmed(content@);
    proof {
        if end > start {
            assert(!spec_is_ws(content@.subrange(start as int, end as int).last()));
        }
        assert(t == content@.subrange(start as int, end as int));
    }
    if end == start {
        return Option::None;
    }
    // Parse the digits.
    let mut acc: u64 = 0;
    let mut k: usize = start;
    while k < end
        invariant
            start <= k <= end <= n,
            n == content@.len(),
            start < end,
            t == spec_trimmed(content@),
            t == content@.subrange(start as int, end as int),
            spec_all_digits(t.take(k - start)),
            acc as int == spec_digits_val(t.take(k - start)),
            acc <= i32::MAX as u64,
        decreases end - k,
    {
        let b = content[k];
        if b < 48 || b > 57 {
            proof {
                assert(t[k - start] == b);
                assert(!spec_all_digits(t));
            }
            return Option::None;
        }
        let d: u64 = (b - 48) as u64;
        let next: u64 = acc * 10 + d;
        proof {
            assert(t.take(k - start + 1).drop_last() =~= t.take(k - start));
            assert(t.take(k - start + 1).last() == t[k - start]);
            assert(spec_all_digits(t.take(k - start + 1)));
        }
        if next > 2147483647u64 {
            proof {
                if spec_all_digits(t) {
                    lemma_digits_val_prefix_le(t, k - start + 1);
                }
            }
            return Option::None;
        }
        acc = next;
        k = k + 1;
    }
    proof {
        assert(t.take(end - start) =~= t);
    }
    Option::Some(acc as i32)
}

fn is_ws(b: u8) -> (r: bool)
    ensures
        r == spec_is_ws(b),
{
    b == 32 || b == 9 || b == 10 || b == 13
}

proof fn lemma_decimal_bytes_are_digits(n: int)
    requires
        0 <= n,
    ensures
        spec_all_digits(crate::strutil::spec_decimal_bytes(n)),
        crate::strutil::spec_decimal_bytes(n).len() >= 1,
    decreases n,
{
    let s = crate::strutil::spec_decimal_bytes(n);
    if n < 10 {
        assert(s =~= seq![(48 + n) as u8]);
    } else {
        lemma_decimal_bytes_are_digits(n / 10);
        let prefix = crate::strutil::spec_decimal_bytes(n / 10);
        assert(s =~= prefix + seq![(48 + n % 10) as u8]);
        assert forall|i: int| 0 <= i < s.len() implies 48 <= #[trigger] s[i] <= 57 by {
            if i < prefix.len() {
                assert(s[i] == prefix[i]);
            } else {
                vstd::arithmetic::div_mod::lemma_mod_bound(n, 10);
            }
        }
    }
}

proof fn lemma_decimal_bytes_value(n: int)
    requires
        0 <= n,
    ensures
        spec_digits_val(crate::strutil::spec_decimal_bytes(n)) == n,
    decreases n,
{
    let s = crate::strutil::spec_decimal_bytes(n);
    if n < 10 {
        assert(s =~= seq![(48 + n) as u8]);
        assert(s.drop_last() =~= Seq::<u8>::empty());
        assert(spec_digits_val(Seq::<u8>::empty()) == 0);
        assert(s.last() == (48 + n) as u8);
        assert((48 + n) as u8 == 48 + n);
    } else {
        lemma_decimal_bytes_value(n / 10);
        let prefix = crate::strutil::spec_decimal_bytes(n / 10);
        assert(s =~= prefix + seq![(48 + n % 10) as u8]);
        assert(s.drop_last() =~= prefix);
        vstd::arithmetic::div_mod::lemma_mod_bound(n, 10);
        vstd::arithmetic::div_mod::lemma_fundamental_div_mod(n, 10);
    }
}

/// The record a committed start writes is read back as the very same
/// identifier: the decimal bytes written for a process id are a non-empty
/// digit string, they survive trimming unchanged, and they parse to the id
/// they were rendered from.
pub proof fn lemma_pid_record_round_trip(pid: i32)
    requires
        0 <= pid,
    ensures
        ({
            let written = crate::strutil::spec_decimal_bytes(pid as int);
            &&& spec_trimmed(written) == written
            &&& written.len() > 0
            &&& spec_all_digits(written)
            &&& spec_digits_val(written) == pid as int
        }),
{
    let written = crate::strutil::spec_decimal_bytes(pid as int);
    lemma_decimal_bytes_are_digits(pid as int);
    lemma_decimal_bytes_value(pid as int);
    assert(!spec_is_ws(written[0]));
    assert(!spec_is_ws(written.last()));
}

// ---------------------------------------------------------------------------
// The graceful-then-forced stop escalation, as an explicit machine.
// ---------------------------------------------------------------------------

/// How long a graceful stop waits, polling once per second, before the
/// forceful signal.
pub const STOP_WAIT_SECS: u32 = 30;

/// Where an escalation run stands.
#[derive(Debug, Clone, Copy, PartialEq, Eq, Structural)]
pub enum StopOutcome {
    Waiting,
    StoppedGracefully,
    ForcedKill,
}

/// The escalation's whole state: how many liveness polls were made, and
/// whether (and how) the wait has ended.
#[derive(Debug, Clone, Copy)]
pub struct EscalationState {
    pub ticks: u32,
    pub outcome: StopOutcome,
}

/// The escalation before the first poll.
pub open spec fn spec_escalation_init() -> EscalationState {
    EscalationState { ticks: 0, outcome: StopOutcome::Waiting }
}

/// What one liveness poll does to the escalation: a dead process ends the
/// wait gracefully; a live one at the window's last poll escalates to the
/// forceful kill; otherwise the wait goes on.
pub open spec fn spec_escalation_step(st: EscalationState, alive: bool) -> EscalationState {
    if !(st.outcome is Waiting) {
        st
    } else if !alive {
        EscalationState { ticks: (st.ticks + 1) as u32, outcome: StopOutcome::StoppedGracefully }
    } else if st.ticks + 1 >= STOP_WAIT_SECS {
        EscalationState { ticks: (st.ticks + 1) as u32, outcome: StopOutcome::ForcedKill }
    } else {
        EscalationState { ticks: (st.ticks + 1) as u32, outcome: StopOutcome::Waiting }
    }
}

/// The escalation run over a whole trace of liveness polls, stopping at the
/// first terminal state.
pub open spec fn spec_escalation_run(st: EscalationState, samples: Seq<bool>) -> EscalationState
    decreases samples.len(),
{
    if samples.len() == 0 || !(st.outcome is Waiting) {
        st
    } else {
        spec_escalation_run(spec_escalation_step(st, samples[0]), samples.drop_first())
    }
}

/// The escalation before the first poll.
pub fn escalation_init() -> (r: EscalationState)
    ensures
        r == spec_escalation_init(),
{
    EscalationState { ticks: 0, outcome: StopOutcome::Waiting }
}

/// Feed one liveness poll into the escalation.
pub fn escalation_step(st: &EscalationState, alive: bool) -> (r: EscalationState)
    requires
        st.outcome is Waiting,
        st.ticks < STOP_WAIT_SECS,
    ensures
        r == spec_escalation_step(*st, alive),
{
    if !alive {
        EscalationState { ticks: st.ticks + 1, outcome: StopOutcome::StoppedGracefully }
    } else if st.ticks + 1 >= STOP_WAIT_SECS {
        EscalationState { ticks: st.ticks + 1, outcome: StopOutcome::ForcedKill }
    } else {
        EscalationState { ticks: st.ticks + 1, outcome: StopOutcome::Waiting }
    }
}

proof fn lemma_run_graceful(st: EscalationState, samples: Seq<bool>, k: int)
    requires
        st.outcome is Waiting,
        0 <= k < samples.len(),
        !samples[k],
        forall|j: int| 0 <= j < k ==> samples[j],
        st.ticks + k + 1 <= STOP_WAIT_SECS,
    ensures
        spec_escalation_run(st, samples).outcome is StoppedGracefully,
    decreases k,
{
    if k == 0 {
        let st1 = spec_escalation_step(st, samples[0]);
        assert(st1.outcome is StoppedGracefully);
        assert(spec_escalation_run(st1, samples.drop_first()) == st1);
        assert(spec_escalation_run(st, samples) == st1);
    } else {
        let st1 = spec_escalation_step(st, samples[0]);
        let rest = samples.drop_first();
        assert(forall|j: int| 0 <= j < k - 1 ==> rest[j]);
        lemma_run_graceful(st1, rest, k - 1);
        assert(spec_escalation_run(st, samples) == spec_escalation_run(st1, rest));
    }
}

/// Stopping a gracefully-responsive process never escalates: when some poll
/// within the wait window sees the process gone, the run ends
/// StoppedGracefully, so the forceful signal is never sent and the PID
/// record is simply removed.
pub proof fn lemma_graceful_stop_never_forced(samples: Seq<bool>, k: int)
    requires
        0 <= k < samples.len(),
        k < STOP_WAIT_SECS,
        !samples[k],
        forall|j: int| 0 <= j < k ==> samples[j],
    ensures
        spec_escalation_run(spec_escalation_init(), samples).outcome is StoppedGracefully,
{
    lemma_run_graceful(spec_escalation_init(), samples, k);
}

proof fn lemma_run_forced(st: EscalationState, samples: Seq<bool>)
    requires
        st.outcome is Waiting,
        st.ticks < STOP_WAIT_SECS,
        samples.len() >= STOP_WAIT_SECS - st.ticks,
        forall|j: int| 0 <= j < STOP_WAIT_SECS - st.ticks ==> samples[j],
    ensures
        spec_escalation_run(st, samples).outcome is ForcedKill,
        spec_escalation_run(st, samples).ticks == STOP_WAIT_SECS,
    decreases STOP_WAIT_SECS - st.ticks,
{
    let st1 = spec_escalation_step(st, samples[0]);
    let rest = samples.drop_first();
    assert(samples[0]);
    if st.ticks + 1 >= STOP_WAIT_SECS {
        assert(st1.outcome is ForcedKill);
        assert(spec_escalation_run(st1, rest) == st1);
        assert(spec_escalation_run(st, samples) == st1);
    } else {
        assert(forall|j: int| 0 <= j < STOP_WAIT_SECS - st1.ticks ==> rest[j]);
        lemma_run_forced(st1, rest);
        assert(spec_escalation_run(st, samples) == spec_escalation_run(st1, rest));
    }
}

/// A process that ignores graceful termination for the whole wait window is
/// killed exactly once: the run ends ForcedKill precisely at the window's
/// last poll, and a terminal run takes no further step.
pub proof fn lemma_stubborn_stop_forced_once(samples: Seq<bool>)
    requires
        samples.len() >= STOP_WAIT_SECS,
        forall|j: int| 0 <= j < STOP_WAIT_SECS ==> samples[j],
    ensures
        spec_escalation_run(spec_escalation_init(), samples).outcome is ForcedKill,
        spec_escalation_run(spec_escalation_init(), samples).ticks == STOP_WAIT_SECS,
{
    lemma_run_forced(spec_escalation_init(), samples);
}

// ---------------------------------------------------------------------------
// The supervisor's operations over the PID record.
// ---------------------------------------------------------------------------

/// What a start attempt may do once the probe of the record is in.
#[derive(Debug, Clone, Copy, PartialEq, Eq, Structural)]
pub enum StartDecision {
    ConcurrentStart,
    AlreadyRunning(i32),
    Launch,
}

/// The start rule: no lock means another start is under way; a live recorded
/// process means the node is already running; otherwise a launch may
/// proceed.
pub open spec fn spec_start_decision(
    lock_acquired: bool,
    recorded_pid: Option<i32>,
    recorded_alive: bool,
) -> StartDecision {
    if !lock_acquired {
        StartDecision::ConcurrentStart
    } else {
        match recorded_pid {
            Option::Some(p) => if recorded_alive {
                StartDecision::AlreadyRunning(p)
            } else {
                StartDecision::Launch
            },
            Option::None => StartDecision::Launch,
        }
    }
}

/// Decide what a start attempt may do.
pub fn start_decision(lock_acquired: bool, recorded_pid: Option<i32>, recorded_alive: bool) -> (d:
    StartDecision)
    ensures
        d == spec_start_decision(lock_acquired, recorded_pid, recorded_alive),
{
    if !lock_acquired {
        StartDecision::ConcurrentStart
    } else {
        match recorded_pid {
            Option::Some(p) => if recorded_alive {
                StartDecision::AlreadyRunning(p)
            } else {
                StartDecision::Launch
            },
            Option::None => StartDecision::Launch,
        }
    }
}

/// Under the held lock, a record naming a live process turns a start into
/// AlreadyRunning with no child spawned; an absent record or a dead recorded
/// process admits exactly one launch, whose identifier the caller then
/// commits into the record; and without the lock nothing at all is started.
pub proof fn lemma_start_single_instance(recorded_pid: Option<i32>, recorded_alive: bool)
    ensures
        recorded_pid matches Option::Some(p) ==> (recorded_alive ==> spec_start_decision(
            true,
            recorded_pid,
            recorded_alive,
        ) == StartDecision::AlreadyRunning(p)),
        (recorded_pid is None || !recorded_alive) ==> spec_start_decision(
            true,
            recorded_pid,
            recorded_alive,
        ) is Launch,
        spec_start_decision(false, recorded_pid, recorded_alive) is ConcurrentStart,
{
}

/// What a stop attempt must do once the record and the liveness probe are
/// in.
#[derive(Debug, Clone, Copy, PartialEq, Eq, Structural)]
pub enum StopAction {
    NotRunning,
    KillNow,
    TermThenWait,
}

/// The stop rule: an absent record or a dead recorded process means there
/// is nothing to stop (a stale record is only cleared); a live process gets
/// the kill signal at once when forced, else the termination signal and the
/// escalation wait.
pub open spec fn spec_stop_decision(recorded: Option<i32>, alive: bool, force: bool) -> StopAction {
    match recorded {
        Option::None => StopAction::NotRunning,
        Option::Some(_) => if !alive {
            StopAction::NotRunning
        } else if force {
            StopAction::KillNow
        } else {
            StopAction::TermThenWait
        },
    }
}

/// Decide what a stop attempt must do.
pub fn stop_decision(recorded: Option<i32>, alive: bool, force: bool) -> (d: StopAction)
    ensures
        d == spec_stop_decision(recorded, alive, force),
        d is NotRunning <==> (recorded is None || !alive),
        d is KillNow <==> (recorded is Some && alive && force),
        d is TermThenWait <==> (recorded is Some && alive && !force),
{
    match recorded {
        Option::None => StopAction::NotRunning,
        Option::Some(_) => if !alive {
            StopAction::NotRunning
        } else if force {
            StopAction::KillNow
        } else {
            StopAction::TermThenWait
        },
    }
}

/// The capability to finish a start: it holds the PID record open and
/// exclusively locked from the liveness check until the new identifier is
/// written, so no other start can interleave.
pub struct StartGuard {
    fd: i32,
}

/// The supervisor.
pub struct ProcessManager;

impl ProcessManager {
    /// Is the process alive? Relies on nix's signal::kill with a no-op
    /// probe; every failure, including permission denied, counts as "not
    /// alive", by design.
    pub fn is_process_alive(pid: i32) -> bool {
        probe_process(pid)
    }

    /// Read the PID record at `pid_path`: absent means no recorded node;
    /// content that is not a plain decimal number is a ConfigError.
    pub fn read_pid_at(pid_path: &str) -> (r: Result<Option<i32>, TronCtlError>)
        ensures
            r matches Err(e) ==> (e is ConfigError || e is IoError),
            r matches Ok(Option::Some(v)) ==> v >= 0,
    {
        if !path_exists(pid_path) {
            return Ok(Option::None);
        }
        let fd = match fs_open_read(pid_path) {
            Err(e) => {
                return Err(TronCtlError::IoError(e));
            },
            Ok(fd) => fd,
        };
        let content = match read_to_end_bounded(fd) {
            Err(e) => {
                fs_close(fd);
                return Err(e);
            },
            Ok(c) => c,
        };
        fs_close(fd);
        match parse_pid_bytes(&content) {
            Option::Some(pid) => Ok(Option::Some(pid)),
            Option::None => Err(
                TronCtlError::ConfigError(String::from_str("无效的 PID 文件")),
            ),
        }
    }

    /// Read the PID record at its fixed location.
    pub fn read_pid() -> (r: Result<Option<i32>, TronCtlError>)
        ensures
            r matches Err(e) ==> (e is ConfigError || e is IoError),
            r matches Ok(Option::Some(v)) ==> v >= 0,
    {
        Self::read_pid_at(PID_FILE)
    }

    /// Remove the PID record, succeeding when it is already gone.
    fn remove_pid_file_at(pid_path: &str) -> (r: Result<(), TronCtlError>)
        ensures
            r matches Err(e) ==> e is IoError,
    {
        if path_exists(pid_path) {
            match fs_unlink(pid_path) {
                Err(e) => {
                    return Err(TronCtlError::IoError(e));
                },
                Ok(()) => {},
            }
        }
        Ok(())
    }

    /// Stop the node whose identifier the record at `pid_path` holds, as
    /// `stop_decision` rules: an absent record or a dead recorded process
    /// is NodeNotRunning (only clearing a stale record); a live process
    /// gets the kill signal at once when forced, else the termination
    /// signal and the escalation wait. In every path the record is removed
    /// only once the process is confirmed no longer alive.
    pub fn stop_at(pid_path: &str, force: bool) -> (r: Result<(), TronCtlError>)
        ensures
            r matches Err(e) ==> (e is NodeNotRunning || e is ProcessStartFailed || e
                is ConfigError || e is IoError),
    {
        let recorded = match Self::read_pid_at(pid_path) {
            Err(e) => {
                return Err(e);
            },
            Ok(r) => r,
        };
        let alive = match recorded {
            Option::Some(pid) => probe_process(pid),
            Option::None => false,
        };
        match stop_decision(recorded, alive, force) {
            StopAction::NotRunning => {
                if recorded.is_some() {
                    match Self::remove_pid_file_at(pid_path) {
                        Err(e) => {
                            return Err(e);
                        },
                        Ok(()) => {},
                    }
                }
                Err(TronCtlError::NodeNotRunning)
            },
            StopAction::KillNow => {
                let pid = match recorded {
                    Option::Some(p) => p,
                    Option::None => vstd::pervasive::unreached(),
                };
                match send_sigkill(pid) {
                    Err(e) => {
                        let mut msg = String::from_str("强制终止失败: ");
                        msg.append(e.as_str());
                        return Err(TronCtlError::ProcessStartFailed(msg));
                    },
                    Ok(()) => {},
                }
                Self::confirm_gone_and_remove(pid, pid_path)
            },
            StopAction::TermThenWait => {
                let pid = match recorded {
                    Option::Some(p) => p,
                    Option::None => vstd::pervasive::unreached(),
                };
                match send_sigterm(pid) {
                    Err(e) => {
                        let mut msg = String::from_str("发送信号失败: ");
                        msg.append(e.as_str());
                        return Err(TronCtlError::ProcessStartFailed(msg));
                    },
                    Ok(()) => {},
                }
                match Self::await_exit(pid) {
                    StopOutcome::StoppedGracefully => {
                        // The escalation ended on a poll that saw the
                        // process gone.
                        match Self::remove_pid_file_at(pid_path) {
                            Err(e) => Err(e),
                            Ok(()) => Ok(()),
                        }
                    },
                    StopOutcome::ForcedKill => {
                        match send_sigkill(pid) {
                            Err(e) => {
                                let mut msg = String::from_str("强制终止失败: ");
                                msg.append(e.as_str());
                                return Err(TronCtlError::ProcessStartFailed(msg));
                            },
                            Ok(()) => {},
                        }
                        Self::confirm_gone_and_remove(pid, pid_path)
                    },
                    StopOutcome::Waiting => vstd::pervasive::unreached(),
                }
            },
        }
    }

    /// Remove the record only once the process is confirmed gone; one that
    /// somehow outlives even the kill signal keeps its record and is
    /// reported instead.
    fn confirm_gone_and_remove(pid: i32, pid_path: &str) -> (r: Result<(), TronCtlError>)
        ensures
            r matches Err(e) ==> (e is ProcessStartFailed || e is IoError),
    {
        if !await_gone(pid) {
            return Err(
                TronCtlError::ProcessStartFailed(
                    String::from_str("进程未能退出，保留 PID 记录"),
                ),
            );
        }
        match Self::remove_pid_file_at(pid_path) {
            Err(e) => Err(e),
            Ok(()) => Ok(()),
        }
    }

    /// Stop the node recorded at the fixed PID record location.
    pub fn stop(force: bool) -> (r: Result<(), TronCtlError>)
        ensures
            r matches Err(e) ==> (e is NodeNotRunning || e is ProcessStartFailed || e
                is ConfigError || e is IoError),
    {
        Self::stop_at(PID_FILE, force)
    }

    /// Poll the process once per second and feed the escalation until it
    /// ends: gone within the window, or still alive after all of it.
    fn await_exit(pid: i32) -> (r: StopOutcome)
        ensures
            r is StoppedGracefully || r is ForcedKill,
    {
        let mut st = escalation_init();
        while matches!(st.outcome, StopOutcome::Waiting)
            invariant
                st.ticks <= STOP_WAIT_SECS,
                st.outcome is Waiting ==> st.ticks < STOP_WAIT_SECS,
            decreases STOP_WAIT_SECS - st.ticks,
        {
            sleep_secs(1);
            let alive = probe_process(pid);
            st = escalation_step(&st, alive);
        }
        st.outcome
    }

    /// Begin a start attempt against the record at `pid_path` (whose parent
    /// directory `pid_dir` is created if missing): take the exclusive
    /// non-blocking lock — failure means a concurrent start, not a stale
    /// file — and inspect the recorded process. A live one reports
    /// NodeAlreadyRunning and releases the lock; otherwise the returned
    /// guard keeps the lock held until commit or abort.
    pub fn start_begin_at(pid_path: &str, pid_dir: &str) -> (r: Result<StartGuard, TronCtlError>)
        ensures
            r matches Err(e) ==> (e is NodeAlreadyRunning || e is Other || e is IoError),
    {
        if !path_exists(pid_dir) {
            match fs_mkdir(pid_dir) {
                Err(e) => {
                    return Err(TronCtlError::IoError(e));
                },
                Ok(()) => {},
            }
        }
        let fd = match fs_open_rw_create(pid_path) {
            Err(e) => {
                return Err(TronCtlError::IoError(e));
            },
            Ok(fd) => fd,
        };
        let locked = fs_try_lock_exclusive(fd);
        if !locked {
            fs_close(fd);
            return Err(
                TronCtlError::Other(
                    String::from_str(
                        "无法获取 PID 文件锁，可能有其他实例正在启动或运行",
                    ),
                ),
            );
        }
        // A record that does not parse is treated as no recorded process.
        let recorded = match read_to_end_bounded(fd) {
            Err(_) => Option::None,
            Ok(content) => parse_pid_bytes(&content),
        };
        let alive = match recorded {
            Option::Some(p) => probe_process(p),
            Option::None => false,
        };
        match start_decision(true, recorded, alive) {
            StartDecision::AlreadyRunning(p) => {
                fs_close(fd);
                Err(TronCtlError::NodeAlreadyRunning(p))
            },
            StartDecision::Launch => Ok(StartGuard { fd }),
            StartDecision::ConcurrentStart => vstd::pervasive::unreached(),
        }
    }

    /// Begin a start attempt against the fixed PID record.
    pub fn start_begin() -> (r: Result<StartGuard, TronCtlError>)
        ensures
            r matches Err(e) ==> (e is NodeAlreadyRunning || e is Other || e is IoError),
    {
        Self::start_begin_at(PID_FILE, PID_DIR)
    }

    /// Finish a start: write the launched child's identifier into the still
    /// locked record, flush it, and only then release the lock.
    pub fn start_commit(guard: StartGuard, pid: i32) -> (r: Result<i32, TronCtlError>)
        requires
            pid >= 0,
        ensures
            r matches Ok(p) ==> p == pid,
            r matches Err(e) ==> e is IoError,
    {
        let StartGuard { fd } = guard;
        match fs_truncate(fd) {
            Err(e) => {
                fs_close(fd);
                return Err(TronCtlError::IoError(e));
            },
            Ok(()) => {},
        }
        match fs_seek_start(fd) {
            Err(e) => {
                fs_close(fd);
                return Err(TronCtlError::IoError(e));
            },
            Ok(()) => {},
        }
        let digits = u64_to_dec_bytes(pid as u64);
        match write_all_fd(fd, &digits) {
            Err(e) => {
                fs_close(fd);
                return Err(TronCtlError::IoError(e));
            },
            Ok(()) => {},
        }
        match fs_fsync(fd) {
            Err(e) => {
                fs_close(fd);
                return Err(TronCtlError::IoError(e));
            },
            Ok(()) => {},
        }
        fs_close(fd);
        Ok(pid)
    }

    /// Give a start attempt up without writing: release the lock.
    pub fn start_abort(guard: StartGuard) {
        let StartGuard { fd } = guard;
        fs_close(fd);
    }
}

/// Poll once per second until the process is confirmed gone, giving up
/// after the wait window: true only on confirmation.
fn await_gone(pid: i32) -> bool {
    let mut i: u32 = 0;
    while i < STOP_WAIT_SECS
        invariant
            i <= STOP_WAIT_SECS,
        decreases STOP_WAIT_SECS - i,
    {
        if !probe_process(pid) {
            return true;
        }
        sleep_secs(1);
        i = i + 1;
    }
    !probe_process(pid)
}

/// Read a descriptor to its end, within the small bound a PID record may
/// legitimately occupy; anything longer is rejected as an invalid record.
fn read_to_end_bounded(fd: i32) -> (r: Result<Vec<u8>, TronCtlError>)
    ensures
        r matches Err(e) ==> (e is IoError || e is ConfigError),
{
    let mut content: Vec<u8> = Vec::new();
    let mut rounds: usize = 0;
    while rounds < 4
        invariant
            rounds <= 4,
        decreases 4 - rounds,
    {
        let chunk = match fs_read_chunk(fd, 64) {
            Err(e) => {
                return Err(TronCtlError::IoError(e));
            },
            Ok(c) => c,
        };
        if chunk.len() == 0 {
            return Ok(content);
        }
        let mut chunk = chunk;
        content.append(&mut chunk);
        rounds = rounds + 1;
    }
    Err(TronCtlError::ConfigError(String::from_str("无效的 PID 文件")))
}

/// Write the whole buffer to the descriptor, continuing after short writes.
fn write_all_fd(fd: i32, data: &Vec<u8>) -> (r: Result<(), String>)
{
    let mut off: usize = 0;
    while off < data.len()
        invariant
            off <= data@.len(),
        decreases data@.len() - off,
    {
        match fs_write_from(fd, data, off) {
            Err(e) => {
                return Err(e);
            },
            Ok(n) => {
                if n == 0 {
                    return Err(String::from_str("写入中断"));
                }
                off = off + n;
            },
        }
    }
    Ok(())
}

} // verus!
