use tronctl::process::{
    escalation_init, escalation_step, parse_pid_bytes, start_decision, stop_decision,
    EscalationState, ProcessManager, StartDecision, StopAction, StopOutcome, STOP_WAIT_SECS,
};

#[test]
fn test_execute_when_no_node_running() {
    let result = tronctl::commands::stop::execute(false);
    assert!(result.is_err());
}

#[test]
fn test_execute_force_when_no_node_running() {
    let result = tronctl::commands::stop::execute(true);
    assert!(result.is_err());
}

#[test]
fn test_stop_when_no_node_running() {
    let result = ProcessManager::stop(false);
    assert!(result.is_err());
}

#[test]
fn test_stop_force_when_no_node_running() {
    let result = ProcessManager::stop(true);
    assert!(result.is_err());
}

#[test]
fn test_read_pid_nonexistent() {
    let result = ProcessManager::read_pid();
    assert!(result.is_ok());
}

#[test]
fn test_is_process_alive() {
    let current_pid = nix::unistd::getpid().as_raw();
    assert!(ProcessManager::is_process_alive(current_pid));

    assert!(!ProcessManager::is_process_alive(999999));
}

#[test]
fn parse_pid_accepts_surrounded_digits() {
    assert_eq!(parse_pid_bytes(&b"  123\n".to_vec()), Some(123));
    assert_eq!(parse_pid_bytes(&b"42".to_vec()), Some(42));
    assert_eq!(parse_pid_bytes(&b"2147483647".to_vec()), Some(2147483647));
}

#[test]
fn parse_pid_rejects_bad_records() {
    assert_eq!(parse_pid_bytes(&b"".to_vec()), None);
    assert_eq!(parse_pid_bytes(&b"   \n".to_vec()), None);
    assert_eq!(parse_pid_bytes(&b"12a4".to_vec()), None);
    assert_eq!(parse_pid_bytes(&b"-5".to_vec()), None);
    assert_eq!(parse_pid_bytes(&b"2147483648".to_vec()), None);
    assert_eq!(parse_pid_bytes(&b"99999999999999999999".to_vec()), None);
}

#[test]
fn written_record_reads_back() {
    for pid in [0i32, 1, 42, 65535, 2147483647] {
        let written = tronctl::strutil::u64_to_dec_bytes(pid as u64);
        assert_eq!(parse_pid_bytes(&written), Some(pid));
    }
}

fn run_escalation(samples: &[bool]) -> EscalationState {
    let mut st = escalation_init();
    for &alive in samples {
        if !matches!(st.outcome, StopOutcome::Waiting) {
            break;
        }
        st = escalation_step(&st, alive);
    }
    st
}

#[test]
fn graceful_exit_never_escalates() {
    // Alive twice, then gone on the third poll: the wait ends without the
    // forceful signal ever being due.
    let st = run_escalation(&[true, true, false]);
    assert!(matches!(st.outcome, StopOutcome::StoppedGracefully));
    assert_eq!(st.ticks, 3);
}

#[test]
fn stubborn_process_forced_exactly_after_window() {
    let samples = vec![true; STOP_WAIT_SECS as usize];
    let st = run_escalation(&samples);
    assert!(matches!(st.outcome, StopOutcome::ForcedKill));
    assert_eq!(st.ticks, STOP_WAIT_SECS);

    // One poll short of the window, the escalation is still only waiting.
    let almost = run_escalation(&vec![true; STOP_WAIT_SECS as usize - 1]);
    assert!(matches!(almost.outcome, StopOutcome::Waiting));
}

#[test]
fn gone_at_last_poll_still_graceful() {
    let mut samples = vec![true; STOP_WAIT_SECS as usize - 1];
    samples.push(false);
    let st = run_escalation(&samples);
    assert!(matches!(st.outcome, StopOutcome::StoppedGracefully));
}

#[test]
fn stop_decision_rules() {
    assert_eq!(stop_decision(None, false, false), StopAction::NotRunning);
    assert_eq!(stop_decision(None, false, true), StopAction::NotRunning);
    assert_eq!(stop_decision(Some(7), false, false), StopAction::NotRunning);
    assert_eq!(stop_decision(Some(7), false, true), StopAction::NotRunning);
    assert_eq!(stop_decision(Some(7), true, true), StopAction::KillNow);
    assert_eq!(stop_decision(Some(7), true, false), StopAction::TermThenWait);
}

#[test]
fn start_decision_reports_live_recorded_process() {
    assert_eq!(
        start_decision(true, Some(4242), true),
        StartDecision::AlreadyRunning(4242)
    );
}

#[test]
fn start_decision_launches_on_absent_or_dead_record() {
    assert_eq!(start_decision(true, None, false), StartDecision::Launch);
    assert_eq!(start_decision(true, Some(77), false), StartDecision::Launch);
}

#[test]
fn start_decision_blocks_without_lock() {
    assert_eq!(
        start_decision(false, None, false),
        StartDecision::ConcurrentStart
    );
    assert_eq!(
        start_decision(false, Some(1), true),
        StartDecision::ConcurrentStart
    );
}
