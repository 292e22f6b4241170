use std::path::PathBuf;
use tests_lib::contract::{
    CommunicationError, Communicator, CommunicatorConfig, Validator, ValidatorConfig,
};
use tests_lib::manager::{compile_status, compile_target, CompileStatus, ManagerError, TestManager};
use tests_lib::outcome::Termination;
use tests_lib::process::ProcessOutput;

struct ExitsCleanly;

impl Validator for ExitsCleanly {
    fn validate(
        &self,
        args: &Vec<String>,
        comm_out: Option<Vec<u8>>,
        result: ProcessOutput,
        _cwd: &PathBuf,
    ) -> bool {
        args[0] == "./client" && comm_out.is_none() && result.status == Termination::ExitedNormally(0)
    }
}

struct Echo;

impl Communicator for Echo {
    fn communicate(&self, io_timeout: u64) -> Result<Vec<u8>, CommunicationError> {
        if io_timeout == 0 {
            Err(CommunicationError { message: String::from("no time") })
        } else {
            Ok(b"pong".to_vec())
        }
    }
}

fn config(timeout: u64) -> ValidatorConfig {
    ValidatorConfig::new(Box::new(ExitsCleanly), timeout, true)
}

fn manager_abc() -> TestManager {
    let mut tm = TestManager::new("assignment2", "client", PathBuf::from("."));
    assert!(tm.add_test("A", "x", false, config(5), None).is_ok());
    assert!(tm.add_test("B", "y", true, config(20), None).is_ok());
    assert!(tm.add_test("C", "z", false, config(30), None).is_ok());
    tm
}

#[test]
fn names_keep_registration_order() {
    let tm = manager_abc();
    assert_eq!(tm.get_test_names(), vec!["A", "B", "C"]);
    assert_eq!(tm.len(), 3);
}

#[test]
fn duplicate_name_is_refused() {
    let mut tm = manager_abc();
    assert_eq!(tm.add_test("B", "other", false, config(1), None), Err(ManagerError::DuplicateName));
    assert_eq!(tm.get_test_names(), vec!["A", "B", "C"]);
    assert_eq!(tm.case(1).args, "y");
}

#[test]
fn run_one_finds_or_reports_not_found() {
    let tm = manager_abc();
    assert_eq!(tm.run_one("C"), Ok(2));
    assert_eq!(tm.run_one("A"), Ok(0));
    assert_eq!(tm.run_one("D"), Err(ManagerError::NotFound));
    assert_eq!(tm.find_test("B"), Some(1));
}

#[test]
fn run_one_twice_plans_the_same_run() {
    let tm = manager_abc();
    let first = tm.run_one("B").unwrap();
    let second = tm.run_one("B").unwrap();
    assert_eq!(first, second);
    assert_eq!(tm.plan(first).command_line(), tm.plan(second).command_line());
    let out = || ProcessOutput::new(Vec::new(), Vec::new(), Termination::ExitedNormally(0));
    assert_eq!(tm.judge(first, None, out()), tm.judge(second, None, out()));
}

#[test]
fn plan_wraps_memcheck_cases() {
    let tm = manager_abc();
    let plain = tm.plan(0);
    assert_eq!(plain.command_line(), vec!["./client", "x"]);
    let wrapped = tm.plan(1);
    assert_eq!(wrapped.memcheck_log_name.as_deref(), Some("valgrind - B"));
    assert_eq!(wrapped.command_line()[0], "valgrind");
    assert_eq!(wrapped.subject_args(), vec!["./client", "y"]);
}

#[test]
fn judge_hands_the_run_to_the_validator() {
    let tm = manager_abc();
    let ok = ProcessOutput::new(Vec::new(), Vec::new(), Termination::ExitedNormally(0));
    assert!(tm.judge(0, None, ok));
    let late = ProcessOutput::new(Vec::new(), Vec::new(), Termination::TimedOut);
    assert!(!tm.judge(0, None, late));
}

#[test]
fn run_all_returns_verdicts_in_order() {
    let tm = manager_abc();
    let mut batch = tm.start_batch(CompileStatus::Success);
    let mut order = Vec::new();
    while let Some(i) = batch.next_case() {
        order.push(i);
        batch.record(i != 1);
    }
    assert_eq!(order, vec![0, 1, 2]);
    let got: Vec<(String, bool)> =
        batch.verdicts().iter().map(|v| (v.test_name.clone(), v.passed)).collect();
    assert_eq!(
        got,
        vec![("A".to_string(), true), ("B".to_string(), false), ("C".to_string(), true)]
    );
}

#[test]
fn failed_build_fails_every_case_without_running() {
    let tm = manager_abc();
    let batch = tm.start_batch(CompileStatus::Error);
    assert_eq!(batch.next_case(), None);
    let got: Vec<(String, bool)> =
        batch.verdicts().iter().map(|v| (v.test_name.clone(), v.passed)).collect();
    assert_eq!(
        got,
        vec![("A".to_string(), false), ("B".to_string(), false), ("C".to_string(), false)]
    );
    let warned = tm.start_batch(CompileStatus::Warning);
    assert_eq!(warned.next_case(), Some(0));
}

#[test]
fn empty_registry_batch() {
    let tm = TestManager::new("x", "client", PathBuf::from("."));
    let batch = tm.start_batch(CompileStatus::Success);
    assert_eq!(batch.next_case(), None);
    assert!(batch.verdicts().is_empty());
}

#[test]
fn side_channel_config() {
    let comm = CommunicatorConfig::new(Box::new(Echo), 3, false);
    assert_eq!(comm.timeout, 3);
    assert!(!comm.log_output);
    assert_eq!(comm.communicator.communicate(comm.timeout).ok(), Some(b"pong".to_vec()));
    assert!(comm.communicator.communicate(0).is_err());
    let mut tm = TestManager::new("x", "client", PathBuf::from("."));
    assert!(tm.add_test("S", "", false, config(1), Some(comm)).is_ok());
    assert!(tm.case(0).communicator.is_some());
}

#[test]
fn compiler_output_classification() {
    assert_eq!(compile_status(b"main.c:3:1: error: expected ';'"), CompileStatus::Error);
    assert_eq!(compile_status(b"main.c:3:1: warning: unused variable"), CompileStatus::Warning);
    assert_eq!(compile_status(b"warning first, then error"), CompileStatus::Error);
    assert_eq!(compile_status(b""), CompileStatus::Success);
    assert_eq!(compile_status(b"ERROR"), CompileStatus::Success);
    assert_eq!(CompileStatus::Error.label(), "error");
    assert_eq!(CompileStatus::Warning.label(), "warning");
    assert_eq!(CompileStatus::Success.label(), "success");
}

#[test]
fn build_target_is_the_last_word() {
    assert_eq!(compile_target("gcc -Wall *.c -o client"), Some("client".to_string()));
    assert_eq!(compile_target("gcc main.c -o client"), None);
    assert_eq!(compile_target(""), None);
}

#[test]
fn manager_keeps_its_working_directory() {
    let tm = TestManager::new("assignment2", "client", PathBuf::from("/tmp/testee"));
    assert_eq!(tm.cwd, PathBuf::from("/tmp/testee"));
    assert_eq!(tm.name, "assignment2");
}
