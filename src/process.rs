//! What the process runner launches, what it collects, and the decisions it
//! takes while a subject runs.
use vstd::prelude::*;
use crate::outcome::{classify, termination_of, Termination};
use crate::search::chars_of;

verus! {

broadcast use vstd::string::group_string_axioms;

/// What one run of the subject produced.
pub struct ProcessOutput {
    pub stdout: Vec<u8>,
    pub stderr: Vec<u8>,
    pub status: Termination,
}

impl ProcessOutput {
    pub fn new(stdout: Vec<u8>, stderr: Vec<u8>, status: Termination) -> (r: ProcessOutput)
        ensures
            r.stdout@ == stdout@,
            r.stderr@ == stderr@,
            r.status == status,
    {
        ProcessOutput { stdout, stderr, status }
    }

    /// Standard output followed by standard error.
    pub fn combined(&self) -> (r: Vec<u8>)
        ensures
            r@ == self.stdout@ + self.stderr@,
    {
        let mut v = self.stdout.clone();
        v.extend_from_slice(self.stderr.as_slice());
        v
    }
}

/// The characters that `char::is_whitespace` accepts (Unicode White_Space).
pub open spec fn is_white(c: char) -> bool {
    let n = c as u32;
    (9 <= n <= 13) || n == 32 || n == 0x85 || n == 0xA0 || n == 0x1680 || (0x2000 <= n
        <= 0x200A) || n == 0x2028 || n == 0x2029 || n == 0x202F || n == 0x205F || n == 0x3000
}

/// The maximal runs of characters that are not white space, in order.
pub open spec fn words(s: Seq<char>) -> Seq<Seq<char>>
    decreases s.len(),
{
    if s.len() == 0 {
        seq![]
    } else {
        let init = s.subrange(0, s.len() - 1);
        let c = s[s.len() - 1];
        if is_white(c) {
            words(init)
        } else if init.len() > 0 && !is_white(init[init.len() - 1]) {
            words(init).update(words(init).len() - 1, words(init).last().push(c))
        } else {
            words(init).push(seq![c])
        }
    }
}

pub open spec fn views_of(v: Seq<String>) -> Seq<Seq<char>> {
    v.map_values(|w: String| w@)
}

fn is_white_char(c: char) -> (r: bool)
    ensures
        r == is_white(c),
{
    let n = c as u32;
    (9 <= n && n <= 13) || n == 32 || n == 0x85 || n == 0xA0 || n == 0x1680 || (0x2000 <= n && n
        <= 0x200A) || n == 0x2028 || n == 0x2029 || n == 0x202F || n == 0x205F || n == 0x3000
}

/// Splits `s` into its words, as `str::split_whitespace` does.
pub fn split_words(s: &str) -> (r: Vec<String>)
    ensures
        views_of(r@) == words(s@),
{
    let cs = chars_of(s);
    let n = cs.len();
    let mut done: Vec<String> = Vec::new();
    let mut in_word = false;
    let mut st: usize = 0;
    let mut i: usize = 0;
    while i < n
        invariant
            n == cs@.len(),
            cs@ == s@,
            i <= n,
            in_word ==> st < i,
            in_word ==> forall|j: int| st <= j < i ==> !is_white(cs@[j]),
            in_word ==> views_of(done@).push(cs@.subrange(st as int, i as int)) == words(
                cs@.subrange(0, i as int),
            ),
            !in_word ==> views_of(done@) == words(cs@.subrange(0, i as int)),
            !in_word ==> (i == 0 || is_white(cs@[i - 1])),
        decreases n - i,
    {
        let c = cs[i];
        let ghost pre = cs@.subrange(0, i as int);
        assert(cs@.subrange(0, i + 1).subrange(0, i as int) =~= pre);
        assert(cs@.subrange(0, i + 1)[i as int] == c);
        if is_white_char(c) {
            if in_word {
                let w = s.substring_char(st, i).to_owned();
                let ghost before = done@;
                done.push(w);
                assert(views_of(done@) =~= views_of(before).push(cs@.subrange(st as int, i as int)));
                in_word = false;
            }
        } else {
            if in_word {
                assert(cs@.subrange(st as int, i + 1) =~= cs@.subrange(st as int, i as int).push(c));
                assert(views_of(done@).push(cs@.subrange(st as int, i + 1)) =~= words(pre).update(
                    words(pre).len() - 1,
                    words(pre).last().push(c),
                ));
            } else {
                st = i;
                assert(cs@.subrange(st as int, i + 1) =~= seq![c]);
                in_word = true;
            }
        }
        i = i + 1;
    }
    assert(cs@.subrange(0, n as int) =~= cs@);
    if in_word {
        let w = s.substring_char(st, n).to_owned();
        let ghost before = done@;
        done.push(w);
        assert(views_of(done@) =~= views_of(before).push(cs@.subrange(st as int, n as int)));
    }
    done
}

/// Valgrind's flags ahead of the subject, writing its report to
/// `log_name` in the working directory.
pub open spec fn memcheck_flags(log_name: Seq<char>) -> Seq<Seq<char>> {
    seq![
        "valgrind"@,
        "--leak-check=full"@,
        "--tool=memcheck"@,
        "--show-leak-kinds=all"@,
        "--track-origins=yes"@,
        "--verbose"@,
        "--error-exitcode=1"@,
        "-v"@,
        "--log-file="@ + log_name,
    ]
}

/// The name of the Valgrind report for the case named `name`.
pub open spec fn memcheck_log_spec(name: Seq<char>) -> Seq<char> {
    "valgrind - "@ + name
}

/// The name of the file that keeps a case's standard output.
pub open spec fn output_log_spec(name: Seq<char>) -> Seq<char> {
    "output - "@ + name + ".txt"@
}

/// The name of the file that keeps what a case's side channel received.
pub open spec fn communicate_log_spec(name: Seq<char>) -> Seq<char> {
    "communicate - "@ + name + ".txt"@
}

pub fn memcheck_log_name(name: &str) -> (r: String)
    ensures
        r@ == memcheck_log_spec(name@),
{
    String::from_str("valgrind - ").concat(name)
}

pub fn output_log_name(name: &str) -> (r: String)
    ensures
        r@ == output_log_spec(name@),
{
    String::from_str("output - ").concat(name).concat(".txt")
}

pub fn communicate_log_name(name: &str) -> (r: String)
    ensures
        r@ == communicate_log_spec(name@),
{
    String::from_str("communicate - ").concat(name).concat(".txt")
}

/// What the runner is to launch: the subject, its arguments, and whether the
/// Valgrind wraps it (with the name of its report).
pub struct ProcessSpecification {
    pub executable_path: String,
    pub arguments: Vec<String>,
    pub memcheck_log_name: Option<String>,
}

impl ProcessSpecification {
    /// The subject `./<elf>` in the working directory, with the words of
    /// `args`; when `memcheck` holds, under Valgrind reporting to
    /// the log named after `name`.
    pub fn for_case(elf: &str, args: &str, memcheck: bool, name: &str) -> (r: ProcessSpecification)
        ensures
            r.executable_path@ == "./"@ + elf@,
            views_of(r.arguments@) == words(args@),
            memcheck ==> (r.memcheck_log_name matches Some(l) && l@ == memcheck_log_spec(name@)),
            !memcheck ==> r.memcheck_log_name is None,
    {
        ProcessSpecification {
            executable_path: String::from_str("./").concat(elf),
            arguments: split_words(args),
            memcheck_log_name: if memcheck {
                Some(memcheck_log_name(name))
            } else {
                None
            },
        }
    }

    pub open spec fn subject_argv(&self) -> Seq<Seq<char>> {
        seq![self.executable_path@] + views_of(self.arguments@)
    }

    pub open spec fn argv_spec(&self) -> Seq<Seq<char>> {
        match self.memcheck_log_name {
            Some(l) => memcheck_flags(l@) + self.subject_argv(),
            None => self.subject_argv(),
        }
    }

    /// The subject's own command line: its path and its arguments.
    pub fn subject_args(&self) -> (r: Vec<String>)
        ensures
            views_of(r@) == self.subject_argv(),
    {
        let mut v: Vec<String> = Vec::new();
        v.push(self.executable_path.clone());
        let mut i: usize = 0;
        while i < self.arguments.len()
            invariant
                i <= self.arguments@.len(),
                views_of(v@) == seq![self.executable_path@] + views_of(
                    self.arguments@.subrange(0, i as int),
                ),
            decreases self.arguments@.len() - i,
        {
            let ghost before = v@;
            v.push(self.arguments[i].clone());
            i = i + 1;
            assert(views_of(v@) =~= views_of(before).push(self.arguments@[i - 1]@));
            assert(views_of(self.arguments@.subrange(0, i as int)) =~= views_of(
                self.arguments@.subrange(0, i - 1),
            ).push(self.arguments@[i - 1]@));
        }
        assert(self.arguments@.subrange(0, self.arguments@.len() as int) =~= self.arguments@);
        v
    }

    /// The full command line: Valgrind's flags, when it wraps the
    /// subject, then the subject's own command line.
    pub fn command_line(&self) -> (r: Vec<String>)
        ensures
            views_of(r@) == self.argv_spec(),
    {
        let subject = self.subject_args();
        match &self.memcheck_log_name {
            None => subject,
            Some(l) => {
                let mut v: Vec<String> = Vec::new();
                v.push(String::from_str("valgrind"));
                v.push(String::from_str("--leak-check=full"));
                v.push(String::from_str("--tool=memcheck"));
                v.push(String::from_str("--show-leak-kinds=all"));
                v.push(String::from_str("--track-origins=yes"));
                v.push(String::from_str("--verbose"));
                v.push(String::from_str("--error-exitcode=1"));
                v.push(String::from_str("-v"));
                v.push(String::from_str("--log-file=").concat(l.as_str()));
                assert(views_of(v@) =~= memcheck_flags(l@));
                let mut i: usize = 0;
                while i < subject.len()
                    invariant
                        i <= subject@.len(),
                        views_of(v@) == memcheck_flags(l@) + views_of(
                            subject@.subrange(0, i as int),
                        ),
                    decreases subject@.len() - i,
                {
                    let ghost before = v@;
                    v.push(subject[i].clone());
                    i = i + 1;
                    assert(views_of(v@) =~= views_of(before).push(subject@[i - 1]@));
                    assert(views_of(subject@.subrange(0, i as int)) =~= views_of(
                        subject@.subrange(0, i - 1),
                    ).push(subject@[i - 1]@));
                }
                assert(subject@.subrange(0, subject@.len() as int) =~= subject@);
                v
            },
        }
    }
}

/// A drain's state: the bytes read so far, and whether the stream has ended.
pub struct StreamBuffer {
    bytes: Vec<u8>,
    closed: bool,
}

/// A drain's state after one read handed it `chunk`; an empty read means end
/// of file, and nothing is taken after it.
pub open spec fn fed(v: (Seq<u8>, bool), chunk: Seq<u8>) -> (Seq<u8>, bool) {
    if v.1 {
        v
    } else if chunk.len() == 0 {
        (v.0, true)
    } else {
        (v.0 + chunk, false)
    }
}

/// A drain's state after the reads `chunks`, in order.
pub open spec fn fed_all(v: (Seq<u8>, bool), chunks: Seq<Seq<u8>>) -> (Seq<u8>, bool)
    decreases chunks.len(),
{
    if chunks.len() == 0 {
        v
    } else {
        fed(fed_all(v, chunks.drop_last()), chunks.last())
    }
}

/// The chunks laid end to end.
pub open spec fn flatten(chunks: Seq<Seq<u8>>) -> Seq<u8>
    decreases chunks.len(),
{
    if chunks.len() == 0 {
        seq![]
    } else {
        flatten(chunks.drop_last()) + chunks.last()
    }
}

impl View for StreamBuffer {
    type V = (Seq<u8>, bool);

    closed spec fn view(&self) -> (Seq<u8>, bool) {
        (self.bytes@, self.closed)
    }
}

impl StreamBuffer {
    pub fn new() -> (r: StreamBuffer)
        ensures
            r@ == (Seq::<u8>::empty(), false),
    {
        StreamBuffer { bytes: Vec::new(), closed: false }
    }

    /// Takes what one read returned.
    pub fn feed(&mut self, chunk: &[u8])
        ensures
            final(self)@ == fed(old(self)@, chunk@),
    {
        if !self.closed {
            if chunk.len() == 0 {
                self.closed = true;
            } else {
                self.bytes.extend_from_slice(chunk);
            }
        }
    }

    /// Whether the stream has ended.
    pub fn is_closed(&self) -> (r: bool)
        ensures
            r == self@.1,
    {
        self.closed
    }

    /// Everything read, in order.
    pub fn into_bytes(self) -> (r: Vec<u8>)
        ensures
            r@ == self@.0,
    {
        self.bytes
    }
}

/// A drain keeps every byte it read, in order, until the stream ends, and
/// takes nothing after that.
pub proof fn lemma_drain_keeps_every_byte(chunks: Seq<Seq<u8>>, later: Seq<u8>)
    requires
        forall|k: int| 0 <= k < chunks.len() ==> chunks[k].len() > 0,
    ensures
        fed_all((Seq::<u8>::empty(), false), chunks) == (flatten(chunks), false),
        fed(fed_all((Seq::<u8>::empty(), false), chunks), Seq::<u8>::empty()) == (
            flatten(chunks),
            true,
        ),
        fed((flatten(chunks), true), later) == (flatten(chunks), true),
    decreases chunks.len(),
{
    if chunks.len() > 0 {
        lemma_drain_keeps_every_byte(chunks.drop_last(), later);
    }
}

/// Where a run of the subject stands.
#[derive(Debug, Clone, Copy, PartialEq, Eq, Structural)]
pub enum RunPhase {
    /// The child was spawned; its output is not drained yet.
    Spawned,
    /// The drains run; the side channel is at work.
    Communicating,
    /// The drains run; the child races the deadline.
    Running,
    /// The child is being killed and reaped; `true` when the side channel
    /// failed, `false` when the deadline passed.
    Killing(bool),
    /// The child has ended as given; the drains are being joined.
    Joining(Termination),
    /// The run is over.
    Finished(Termination),
    /// The side channel failed and the child is gone.
    Failed,
}

/// What the runner observed.
#[derive(Debug, Clone, Copy, PartialEq, Eq, Structural)]
pub enum RunEvent {
    DrainsStarted,
    SideChannelDone,
    SideChannelFailed,
    /// The child exited first, with this raw wait status.
    Exited(i32),
    DeadlineElapsed,
    Reaped,
    Drained,
}

/// What the runner is to do next.
#[derive(Debug, Clone, Copy, PartialEq, Eq, Structural)]
pub enum RunAction {
    StartDrains,
    Communicate,
    AwaitExitOrDeadline,
    KillAndReap,
    JoinDrains,
    Report(Termination),
    /// Give the side channel's failure to the caller.
    GiveUp,
}

/// The action that a phase waits to see done.
pub open spec fn pending(p: RunPhase) -> RunAction {
    match p {
        RunPhase::Spawned => RunAction::StartDrains,
        RunPhase::Communicating => RunAction::Communicate,
        RunPhase::Running => RunAction::AwaitExitOrDeadline,
        RunPhase::Killing(_) => RunAction::KillAndReap,
        RunPhase::Joining(_) => RunAction::JoinDrains,
        RunPhase::Finished(t) => RunAction::Report(t),
        RunPhase::Failed => RunAction::GiveUp,
    }
}

/// The runner's next phase and action, given its phase, whether the case has
/// a side channel, and what it observed. An event that does not belong to
/// the phase changes nothing.
pub open spec fn next(p: RunPhase, side_channel: bool, e: RunEvent) -> (RunPhase, RunAction) {
    let q = match (p, e) {
        (RunPhase::Spawned, RunEvent::DrainsStarted) => if side_channel {
            RunPhase::Communicating
        } else {
            RunPhase::Running
        },
        (RunPhase::Communicating, RunEvent::SideChannelDone) => RunPhase::Running,
        (RunPhase::Communicating, RunEvent::SideChannelFailed) => RunPhase::Killing(true),
        (RunPhase::Running, RunEvent::Exited(raw)) => RunPhase::Joining(termination_of(raw)),
        (RunPhase::Running, RunEvent::DeadlineElapsed) => RunPhase::Killing(false),
        (RunPhase::Killing(false), RunEvent::Reaped) => RunPhase::Joining(Termination::TimedOut),
        (RunPhase::Killing(true), RunEvent::Reaped) => RunPhase::Failed,
        (RunPhase::Joining(t), RunEvent::Drained) => RunPhase::Finished(t),
        _ => p,
    };
    (q, pending(q))
}

/// The decisions of one run of the subject.
pub struct ProcessRun {
    pub phase: RunPhase,
    pub side_channel: bool,
}

impl ProcessRun {
    /// A run whose child was just spawned.
    pub fn new(side_channel: bool) -> (r: ProcessRun)
        ensures
            r.phase == RunPhase::Spawned,
            r.side_channel == side_channel,
    {
        ProcessRun { phase: RunPhase::Spawned, side_channel }
    }

    /// The action the run waits to see done.
    pub fn action(&self) -> (r: RunAction)
        ensures
            r == pending(self.phase),
    {
        match self.phase {
            RunPhase::Spawned => RunAction::StartDrains,
            RunPhase::Communicating => RunAction::Communicate,
            RunPhase::Running => RunAction::AwaitExitOrDeadline,
            RunPhase::Killing(_) => RunAction::KillAndReap,
            RunPhase::Joining(_) => RunAction::JoinDrains,
            RunPhase::Finished(t) => RunAction::Report(t),
            RunPhase::Failed => RunAction::GiveUp,
        }
    }

    /// Takes an observation and says what to do next.
    pub fn step(&mut self, e: RunEvent) -> (r: RunAction)
        ensures
            final(self).side_channel == old(self).side_channel,
            (final(self).phase, r) == next(old(self).phase, old(self).side_channel, e),
    {
        let q = match (self.phase, e) {
            (RunPhase::Spawned, RunEvent::DrainsStarted) => if self.side_channel {
                RunPhase::Communicating
            } else {
                RunPhase::Running
            },
            (RunPhase::Communicating, RunEvent::SideChannelDone) => RunPhase::Running,
            (RunPhase::Communicating, RunEvent::SideChannelFailed) => RunPhase::Killing(true),
            (RunPhase::Running, RunEvent::Exited(raw)) => RunPhase::Joining(classify(raw)),
            (RunPhase::Running, RunEvent::DeadlineElapsed) => RunPhase::Killing(false),
            (RunPhase::Killing(false), RunEvent::Reaped) => RunPhase::Joining(
                Termination::TimedOut,
            ),
            (RunPhase::Killing(true), RunEvent::Reaped) => RunPhase::Failed,
            (RunPhase::Joining(t), RunEvent::Drained) => RunPhase::Finished(t),
            _ => self.phase,
        };
        self.phase = q;
        self.action()
    }
}

impl ProcessRun {
    /// What a finished run produced: everything each drain read, and the
    /// termination the run reported.
    pub fn outcome(&self, out: StreamBuffer, err: StreamBuffer) -> (r: ProcessOutput)
        requires
            self.phase is Finished,
        ensures
            r.stdout@ == out@.0,
            r.stderr@ == err@.0,
            self.phase == RunPhase::Finished(r.status),
    {
        let status = match self.phase {
            RunPhase::Finished(t) => t,
            _ => Termination::TimedOut,
        };
        ProcessOutput::new(out.into_bytes(), err.into_bytes(), status)
    }
}

/// A subject that writes any amount of output and exits cleanly has all of
/// it reported: the drains start before the runner waits, the clean exit
/// leads through joining the drains to a finished run with exit code 0, and
/// a drain that read `chunks` and then reached end of file holds exactly
/// their bytes, in order, which `ProcessRun::outcome` hands on as standard
/// output.
pub proof fn lemma_clean_exit_keeps_all_output(chunks: Seq<Seq<u8>>)
    requires
        forall|k: int| 0 <= k < chunks.len() ==> chunks[k].len() > 0,
    ensures
        next(RunPhase::Spawned, false, RunEvent::DrainsStarted) == (
            RunPhase::Running,
            RunAction::AwaitExitOrDeadline,
        ),
        next(RunPhase::Running, false, RunEvent::Exited(0)) == (
            RunPhase::Joining(Termination::ExitedNormally(0)),
            RunAction::JoinDrains,
        ),
        next(RunPhase::Joining(Termination::ExitedNormally(0)), false, RunEvent::Drained) == (
            RunPhase::Finished(Termination::ExitedNormally(0)),
            RunAction::Report(Termination::ExitedNormally(0)),
        ),
        fed(fed_all((Seq::<u8>::empty(), false), chunks), Seq::<u8>::empty()) == (
            flatten(chunks),
            true,
        ),
{
    assert(0i32 & 0x7f == 0 && (0i32 >> 8) & 0xff == 0) by (bit_vector);
    lemma_drain_keeps_every_byte(chunks, Seq::<u8>::empty());
}

/// The phases a run can be in once its deadline has passed.
pub open spec fn past_deadline(p: RunPhase) -> bool {
    p == RunPhase::Killing(false) || p == RunPhase::Joining(Termination::TimedOut)
        || p == RunPhase::Finished(Termination::TimedOut)
}

/// Once the deadline passes, the runner never waits for the child again:
/// whatever it observes, it only kills, reaps, joins the drains and reports
/// a timeout, and three observations (the deadline, the reaping, the
/// drains' end) take a running child to that report.
pub proof fn lemma_deadline_ends_run(side_channel: bool, p: RunPhase, e: RunEvent)
    ensures
        next(RunPhase::Running, side_channel, RunEvent::DeadlineElapsed).0 == RunPhase::Killing(
            false,
        ),
        next(RunPhase::Killing(false), side_channel, RunEvent::Reaped).0 == RunPhase::Joining(
            Termination::TimedOut,
        ),
        next(RunPhase::Joining(Termination::TimedOut), side_channel, RunEvent::Drained) == (
            RunPhase::Finished(Termination::TimedOut),
            RunAction::Report(Termination::TimedOut),
        ),
        past_deadline(p) ==> past_deadline(next(p, side_channel, e).0),
        past_deadline(p) ==> next(p, side_channel, e).1 != RunAction::AwaitExitOrDeadline,
{
}

/// The runner starts to wait for the child only after both drains have
/// started, and, for a case with a side channel, after that channel is done.
pub proof fn lemma_drains_precede_waiting(p: RunPhase, side_channel: bool, e: RunEvent)
    ensures
        p == RunPhase::Spawned && next(p, side_channel, e).1 == RunAction::AwaitExitOrDeadline
            ==> e == RunEvent::DrainsStarted && !side_channel,
        p == RunPhase::Communicating && next(p, side_channel, e).1
            == RunAction::AwaitExitOrDeadline ==> e == RunEvent::SideChannelDone,
{
}

} // verus!
