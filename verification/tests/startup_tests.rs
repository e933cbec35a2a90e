use justrun::startup::{
    check_running, cleanup_succeeded, pid_from_file, pid_listed, Removal, StartupAction,
    StartupError, StartupEvent, StartupPhase,
};
use justrun::text::{decimal_text, IntParseError};

#[test]
fn pid_file_is_trimmed_and_parsed() {
    assert_eq!(pid_from_file("1234\n"), Ok(1234));
    assert_eq!(pid_from_file("  42  "), Ok(42));
    assert_eq!(pid_from_file(""), Err(IntParseError::Empty));
    assert_eq!(pid_from_file("12 34"), Err(IntParseError::InvalidDigit));
}

#[test]
fn pid_file_reads_back_what_was_written() {
    for pid in [0u32, 1, 9, 10, 4242, u32::MAX] {
        assert_eq!(pid_from_file(&decimal_text(pid as u64)), Ok(pid));
    }
}

#[test]
fn ps_output_lists_the_pid() {
    let out = "    PID TTY          TIME CMD\n   4242 ?        00:00:00 justrund\n";
    assert!(pid_listed(out, 4242));
    assert!(!pid_listed("    PID TTY          TIME CMD\n", 4242));
}

#[test]
fn first_start_claims_the_pid_file() {
    let mut phase = StartupPhase::Begin;
    assert!(matches!(check_running(&mut phase, StartupEvent::PidFile(None)), StartupAction::WritePid));
    assert_eq!(phase, StartupPhase::Claiming);
    assert!(matches!(check_running(&mut phase, StartupEvent::PidWritten), StartupAction::Finish(Ok(()))));
    assert_eq!(phase, StartupPhase::Finished);
}

#[test]
fn running_instance_blocks_the_start() {
    let mut phase = StartupPhase::Begin;
    let action = check_running(&mut phase, StartupEvent::PidFile(Some("77\n".to_string())));
    assert!(matches!(&action, StartupAction::RunPs(v) if v == &vec!["ps".to_string(), "-p".to_string(), "77".to_string()]));
    assert_eq!(phase, StartupPhase::Probing(77));
    let action = check_running(
        &mut phase,
        StartupEvent::PsOutput("  PID TTY\n   77 ?\n".to_string()),
    );
    match action {
        StartupAction::Finish(Err(e)) => {
            assert!(matches!(e, StartupError::AlreadyRunning(77)));
            assert_eq!(e.message(), "PID 77 is active. Another instance is running, terminating.");
        }
        _ => panic!("a running instance was not detected"),
    }
}

#[test]
fn stale_instance_is_cleaned_up() {
    let mut phase = StartupPhase::Begin;
    check_running(&mut phase, StartupEvent::PidFile(Some("77".to_string())));
    let action = check_running(&mut phase, StartupEvent::PsOutput("  PID TTY\n".to_string()));
    assert!(matches!(action, StartupAction::CleanUp));
    assert_eq!(phase, StartupPhase::CleaningUp(77));
    assert!(matches!(check_running(&mut phase, StartupEvent::CleanedUp(true)), StartupAction::WritePid));
    assert_eq!(phase, StartupPhase::Claiming);
}

#[test]
fn failed_cleanup_blocks_the_start() {
    let mut phase = StartupPhase::CleaningUp(5);
    match check_running(&mut phase, StartupEvent::CleanedUp(false)) {
        StartupAction::Finish(Err(e)) => assert_eq!(e.message(), "Failed to clean up old daemon files"),
        _ => panic!("a failed clean-up was ignored"),
    }
}

#[test]
fn unreadable_pid_blocks_the_start() {
    let mut phase = StartupPhase::Begin;
    match check_running(&mut phase, StartupEvent::PidFile(Some("abc".to_string()))) {
        StartupAction::Finish(Err(e)) => {
            assert!(matches!(e, StartupError::BadPid(IntParseError::InvalidDigit)));
            assert_eq!(e.message(), "Failed to parse PID: invalid digit found in string");
        }
        _ => panic!("a bad pid file was accepted"),
    }
    assert_eq!(phase, StartupPhase::Finished);
}

#[test]
fn cleanup_succeeds_unless_a_removal_failed() {
    assert!(cleanup_succeeded(&vec![Removal::Absent, Removal::Removed]));
    assert!(cleanup_succeeded(&vec![]));
    assert!(!cleanup_succeeded(&vec![Removal::Removed, Removal::Failed]));
}
