use tests_lib::outcome::{SignalKind, Termination};
use tests_lib::process::{
    communicate_log_name, memcheck_log_name, output_log_name, split_words, ProcessOutput,
    ProcessRun, ProcessSpecification, RunAction, RunEvent, RunPhase, StreamBuffer,
};

fn strings(v: &[&str]) -> Vec<String> {
    v.iter().map(|s| s.to_string()).collect()
}

#[test]
fn words_split_on_any_white_space() {
    assert_eq!(split_words("  a  bc\td\n e\u{3000}f "), strings(&["a", "bc", "d", "e", "f"]));
    assert_eq!(split_words(""), Vec::<String>::new());
    assert_eq!(split_words(" \t\n"), Vec::<String>::new());
    assert_eq!(split_words("x"), strings(&["x"]));
}

#[test]
fn log_names_follow_the_case_name() {
    assert_eq!(memcheck_log_name("Life Cycle"), "valgrind - Life Cycle");
    assert_eq!(output_log_name("Usage1"), "output - Usage1.txt");
    assert_eq!(communicate_log_name("A"), "communicate - A.txt");
}

#[test]
fn plain_command_line() {
    let spec = ProcessSpecification::for_case("client", "http://localhost:8080/recursive/3", false, "R");
    assert_eq!(spec.executable_path, "./client");
    assert!(spec.memcheck_log_name.is_none());
    assert_eq!(spec.command_line(), strings(&["./client", "http://localhost:8080/recursive/3"]));
    assert_eq!(spec.subject_args(), spec.command_line());
}

#[test]
fn memcheck_command_line() {
    let spec = ProcessSpecification::for_case("client", "-r 1  a=b", true, "Absolute Redirect");
    assert_eq!(spec.memcheck_log_name.as_deref(), Some("valgrind - Absolute Redirect"));
    assert_eq!(
        spec.command_line(),
        strings(&[
            "valgrind",
            "--leak-check=full",
            "--tool=memcheck",
            "--show-leak-kinds=all",
            "--track-origins=yes",
            "--verbose",
            "--error-exitcode=1",
            "-v",
            "--log-file=valgrind - Absolute Redirect",
            "./client",
            "-r",
            "1",
            "a=b",
        ])
    );
    assert_eq!(spec.subject_args(), strings(&["./client", "-r", "1", "a=b"]));
}

#[test]
fn drain_keeps_a_mebibyte() {
    let mut buf = StreamBuffer::new();
    let mut expected = Vec::new();
    for i in 0..1024u32 {
        let chunk: Vec<u8> = (0..1024u32).map(|j| ((i * 7 + j) % 251) as u8).collect();
        expected.extend_from_slice(&chunk);
        buf.feed(&chunk);
        assert!(!buf.is_closed());
    }
    buf.feed(&[]);
    assert!(buf.is_closed());
    buf.feed(b"late bytes");
    let bytes = buf.into_bytes();
    assert_eq!(bytes.len(), 1 << 20);
    assert_eq!(bytes, expected);
}

#[test]
fn output_combines_streams() {
    let out = ProcessOutput::new(b"out".to_vec(), b"err".to_vec(), Termination::ExitedNormally(0));
    assert_eq!(out.combined(), b"outerr".to_vec());
}

#[test]
fn sleeping_subject_times_out() {
    let mut run = ProcessRun::new(false);
    assert_eq!(run.action(), RunAction::StartDrains);
    assert_eq!(run.step(RunEvent::DrainsStarted), RunAction::AwaitExitOrDeadline);
    assert_eq!(run.step(RunEvent::DeadlineElapsed), RunAction::KillAndReap);
    assert_eq!(run.step(RunEvent::Reaped), RunAction::JoinDrains);
    assert_eq!(run.step(RunEvent::Drained), RunAction::Report(Termination::TimedOut));
    assert_eq!(run.phase, RunPhase::Finished(Termination::TimedOut));
}

#[test]
fn crashing_subject_is_reported() {
    let mut run = ProcessRun::new(false);
    run.step(RunEvent::DrainsStarted);
    assert_eq!(run.step(RunEvent::Exited(11)), RunAction::JoinDrains);
    assert_eq!(
        run.step(RunEvent::Drained),
        RunAction::Report(Termination::KilledBySignal(SignalKind::SegmentationFault))
    );
}

#[test]
fn side_channel_runs_before_waiting() {
    let mut run = ProcessRun::new(true);
    assert_eq!(run.step(RunEvent::DrainsStarted), RunAction::Communicate);
    assert_eq!(run.step(RunEvent::SideChannelDone), RunAction::AwaitExitOrDeadline);
    assert_eq!(run.step(RunEvent::Exited(0)), RunAction::JoinDrains);
    assert_eq!(run.step(RunEvent::Drained), RunAction::Report(Termination::ExitedNormally(0)));
}

#[test]
fn broken_side_channel_gives_up_after_killing() {
    let mut run = ProcessRun::new(true);
    run.step(RunEvent::DrainsStarted);
    assert_eq!(run.step(RunEvent::SideChannelFailed), RunAction::KillAndReap);
    assert_eq!(run.step(RunEvent::Reaped), RunAction::GiveUp);
    assert_eq!(run.phase, RunPhase::Failed);
}

#[test]
fn stray_events_change_nothing() {
    let mut run = ProcessRun::new(false);
    assert_eq!(run.step(RunEvent::Exited(0)), RunAction::StartDrains);
    assert_eq!(run.phase, RunPhase::Spawned);
    run.step(RunEvent::DrainsStarted);
    run.step(RunEvent::DeadlineElapsed);
    assert_eq!(run.step(RunEvent::Exited(0)), RunAction::KillAndReap);
    assert_eq!(run.step(RunEvent::DeadlineElapsed), RunAction::KillAndReap);
}

#[test]
fn finished_run_reports_every_drained_byte() {
    let mut run = ProcessRun::new(false);
    run.step(RunEvent::DrainsStarted);
    run.step(RunEvent::Exited(0));
    run.step(RunEvent::Drained);
    let mut out = StreamBuffer::new();
    let big = vec![7u8; 1 << 20];
    for chunk in big.chunks(4096) {
        out.feed(chunk);
    }
    out.feed(&[]);
    let mut err = StreamBuffer::new();
    err.feed(b"warn");
    let result = run.outcome(out, err);
    assert_eq!(result.stdout, big);
    assert_eq!(result.stderr, b"warn".to_vec());
    assert_eq!(result.status, Termination::ExitedNormally(0));
}
