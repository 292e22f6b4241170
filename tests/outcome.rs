use tests_lib::outcome::{classify, log_exit_code, signal_kind, SignalKind, Status, Termination};

#[test]
fn clean_exit_is_exited_normally() {
    assert_eq!(classify(0), Termination::ExitedNormally(0));
    assert_eq!(classify(3 << 8), Termination::ExitedNormally(3));
}

#[test]
fn segfault_is_killed_by_segmentation_fault() {
    assert_eq!(classify(11), Termination::KilledBySignal(SignalKind::SegmentationFault));
}

#[test]
fn named_signals_are_classified() {
    assert_eq!(classify(2), Termination::KilledBySignal(SignalKind::Interrupt));
    assert_eq!(classify(6), Termination::KilledBySignal(SignalKind::Abort));
    assert_eq!(classify(9), Termination::KilledBySignal(SignalKind::Kill));
    assert_eq!(classify(13), Termination::KilledBySignal(SignalKind::BrokenPipe));
    assert_eq!(classify(15), Termination::KilledBySignal(SignalKind::Other(15)));
    // a core-dump flag above the signal bits does not change the signal
    assert_eq!(classify(0x80 | 11), Termination::KilledBySignal(SignalKind::SegmentationFault));
}

#[test]
fn exit_code_124_is_not_a_timeout() {
    assert_eq!(classify(124 << 8), Termination::ExitedNormally(124));
    assert_ne!(classify(Status::Timeout.raw()), Termination::TimedOut);
}

#[test]
fn signal_numbers_round_trip() {
    for n in [2, 6, 9, 11, 13, 15, 1] {
        assert_eq!(signal_kind(n).number(), n);
    }
}

#[test]
fn status_table_codes() {
    assert_eq!(Status::Timeout.code(), 124);
    assert_eq!(Status::Sigint.code(), 130);
    assert_eq!(Status::Sigabrt.code(), 134);
    assert_eq!(Status::Sigkill.code(), 137);
    assert_eq!(Status::Sigsegv.code(), 139);
    assert_eq!(Status::Sigpipe.code(), 141);
    assert_eq!(Status::Sigsegv.raw(), 139 << 8);
}

#[test]
fn termination_status() {
    assert_eq!(Termination::TimedOut.status(), Some(Status::Timeout));
    assert_eq!(
        Termination::KilledBySignal(SignalKind::SegmentationFault).status(),
        Some(Status::Sigsegv)
    );
    assert_eq!(Termination::KilledBySignal(SignalKind::Other(15)).status(), None);
    assert_eq!(Termination::ExitedNormally(1).status(), None);
}

#[test]
fn exit_log_judgment() {
    assert!(log_exit_code(&Termination::ExitedNormally(0)));
    assert!(log_exit_code(&Termination::ExitedNormally(7)));
    assert!(!log_exit_code(&Termination::TimedOut));
    assert!(!log_exit_code(&Termination::KilledBySignal(SignalKind::Abort)));
}
