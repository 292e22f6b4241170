//! Classification of how a child process ended.
use vstd::prelude::*;

verus! {

/// The fatal signals that the harness names; any other signal keeps its number.
#[derive(Debug, Clone, Copy, PartialEq, Eq, Structural)]
pub enum SignalKind {
    Interrupt,
    Abort,
    Kill,
    SegmentationFault,
    BrokenPipe,
    Other(i32),
}

/// How a run of the subject ended.
#[derive(Debug, Clone, Copy, PartialEq, Eq, Structural)]
pub enum Termination {
    ExitedNormally(i32),
    KilledBySignal(SignalKind),
    /// Manufactured by the runner when the deadline passed; never read from the OS.
    TimedOut,
}

/// The kind of a signal number (POSIX numbering).
pub open spec fn kind_of_signal(n: i32) -> SignalKind {
    if n == 2 {
        SignalKind::Interrupt
    } else if n == 6 {
        SignalKind::Abort
    } else if n == 9 {
        SignalKind::Kill
    } else if n == 11 {
        SignalKind::SegmentationFault
    } else if n == 13 {
        SignalKind::BrokenPipe
    } else {
        SignalKind::Other(n)
    }
}

/// What a raw wait status says: the low seven bits hold the signal that
/// stopped the process, or zero when it exited, with the exit code in the
/// next byte.
pub open spec fn termination_of(raw: i32) -> Termination {
    if raw & 0x7f == 0 {
        Termination::ExitedNormally((raw >> 8) & 0xff)
    } else {
        Termination::KilledBySignal(kind_of_signal(raw & 0x7f))
    }
}

impl SignalKind {
    pub open spec fn spec_number(self) -> i32 {
        match self {
            SignalKind::Interrupt => 2,
            SignalKind::Abort => 6,
            SignalKind::Kill => 9,
            SignalKind::SegmentationFault => 11,
            SignalKind::BrokenPipe => 13,
            SignalKind::Other(n) => n,
        }
    }

    /// The POSIX number of the signal.
    pub fn number(&self) -> (r: i32)
        ensures
            r == self.spec_number(),
    {
        match self {
            SignalKind::Interrupt => 2,
            SignalKind::Abort => 6,
            SignalKind::Kill => 9,
            SignalKind::SegmentationFault => 11,
            SignalKind::BrokenPipe => 13,
            SignalKind::Other(n) => *n,
        }
    }
}

/// Maps a signal number to its kind.
pub fn signal_kind(n: i32) -> (r: SignalKind)
    ensures
        r == kind_of_signal(n),
{
    if n == 2 {
        SignalKind::Interrupt
    } else if n == 6 {
        SignalKind::Abort
    } else if n == 9 {
        SignalKind::Kill
    } else if n == 11 {
        SignalKind::SegmentationFault
    } else if n == 13 {
        SignalKind::BrokenPipe
    } else {
        SignalKind::Other(n)
    }
}

/// Classifies a raw wait status as reported by the operating system.
pub fn classify(raw: i32) -> (r: Termination)
    ensures
        r == termination_of(raw),
        r != Termination::TimedOut,
{
    let sig: i32 = raw & 0x7f;
    if sig == 0 {
        Termination::ExitedNormally((raw >> 8) & 0xff)
    } else {
        Termination::KilledBySignal(signal_kind(sig))
    }
}

/// The conventional wait statuses the harness reports: an exit code in the
/// second byte, as a shell reports a command stopped by `timeout` or by a
/// signal.
#[derive(Debug, Clone, Copy, PartialEq, Eq, Structural)]
pub enum Status {
    Timeout,
    Sigint,
    Sigabrt,
    Sigkill,
    Sigsegv,
    Sigpipe,
}

impl Status {
    pub open spec fn spec_code(self) -> i32 {
        match self {
            Status::Timeout => 124,
            Status::Sigint => 130,
            Status::Sigabrt => 134,
            Status::Sigkill => 137,
            Status::Sigsegv => 139,
            Status::Sigpipe => 141,
        }
    }

    /// The exit code a shell reports for this status.
    pub fn code(&self) -> (r: i32)
        ensures
            r == self.spec_code(),
    {
        match self {
            Status::Timeout => 124,
            Status::Sigint => 130,
            Status::Sigabrt => 134,
            Status::Sigkill => 137,
            Status::Sigsegv => 139,
            Status::Sigpipe => 141,
        }
    }

    /// The raw wait status that carries this exit code.
    pub fn raw(&self) -> (r: i32)
        ensures
            r == self.spec_code() * 256,
    {
        self.code() * 256
    }
}

impl Termination {
    pub open spec fn spec_status(self) -> Option<Status> {
        match self {
            Termination::TimedOut => Some(Status::Timeout),
            Termination::KilledBySignal(SignalKind::Interrupt) => Some(Status::Sigint),
            Termination::KilledBySignal(SignalKind::Abort) => Some(Status::Sigabrt),
            Termination::KilledBySignal(SignalKind::Kill) => Some(Status::Sigkill),
            Termination::KilledBySignal(SignalKind::SegmentationFault) => Some(Status::Sigsegv),
            Termination::KilledBySignal(SignalKind::BrokenPipe) => Some(Status::Sigpipe),
            _ => None,
        }
    }

    /// The conventional status of this termination, where it has one.
    pub fn status(&self) -> (r: Option<Status>)
        ensures
            r == self.spec_status(),
    {
        match self {
            Termination::TimedOut => Some(Status::Timeout),
            Termination::KilledBySignal(SignalKind::Interrupt) => Some(Status::Sigint),
            Termination::KilledBySignal(SignalKind::Abort) => Some(Status::Sigabrt),
            Termination::KilledBySignal(SignalKind::Kill) => Some(Status::Sigkill),
            Termination::KilledBySignal(SignalKind::SegmentationFault) => Some(Status::Sigsegv),
            Termination::KilledBySignal(SignalKind::BrokenPipe) => Some(Status::Sigpipe),
            _ => None,
        }
    }
}

/// Judges a termination for the run's log: an exit, with any code, counts as
/// a finished run; a timeout or a fatal signal does not.
pub fn log_exit_code(t: &Termination) -> (r: bool)
    ensures
        r == (*t is ExitedNormally),
{
    match t {
        Termination::ExitedNormally(_) => true,
        _ => false,
    }
}

} // verus!
