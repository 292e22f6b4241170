//! The capabilities a test case is judged and probed with.
use vstd::prelude::*;
use crate::process::ProcessOutput;

verus! {

/// The working directory is carried through to validators as it is.
#[verifier::external_type_specification]
#[verifier::external_body]
pub struct ExPathBuf(std::path::PathBuf);

/// Judges a finished run: the subject's command line, what the side channel
/// received (if the case has one), what the run produced, and the working
/// directory.
pub trait Validator {
    fn validate(
        &self,
        args: &Vec<String>,
        comm_out: Option<Vec<u8>>,
        result: ProcessOutput,
        cwd: &std::path::PathBuf,
    ) -> bool;
}

/// A validator with the run's deadline in seconds, and whether the run's
/// standard output is kept in a log file.
pub struct ValidatorConfig {
    pub validator: Box<dyn Validator>,
    pub timeout: u64,
    pub log_output: bool,
}

impl ValidatorConfig {
    pub fn new(validator: Box<dyn Validator>, timeout: u64, log_output: bool) -> (r: Self)
        ensures
            r.timeout == timeout,
            r.log_output == log_output,
    {
        ValidatorConfig { validator, timeout, log_output }
    }
}

impl std::ops::Deref for ValidatorConfig {
    type Target = dyn Validator;

    fn deref(&self) -> &Self::Target {
        &*self.validator
    }
}

/// Why a side channel failed.
pub struct CommunicationError {
    pub message: String,
}

/// A bounded interaction beside the subject's run, such as a request of its
/// own to a network service; it returns the bytes it received.
pub trait Communicator {
    fn communicate(&self, io_timeout: u64) -> Result<Vec<u8>, CommunicationError>;
}

/// A side channel with its time bound in seconds, and whether what it
/// received is kept in a log file.
pub struct CommunicatorConfig {
    pub communicator: Box<dyn Communicator>,
    pub timeout: u64,
    pub log_output: bool,
}

impl CommunicatorConfig {
    pub fn new(communicator: Box<dyn Communicator>, timeout: u64, log_output: bool) -> (r: Self)
        ensures
            r.timeout == timeout,
            r.log_output == log_output,
    {
        CommunicatorConfig { communicator, timeout, log_output }
    }
}

impl std::ops::Deref for CommunicatorConfig {
    type Target = dyn Communicator;

    fn deref(&self) -> &Self::Target {
        &*self.communicator
    }
}

} // verus!
