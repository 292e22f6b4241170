//! The registry of test cases and the sequencing of their runs.
use vstd::prelude::*;
use crate::contract::{CommunicatorConfig, ValidatorConfig};
use crate::process::{words, views_of, split_words, ProcessOutput, ProcessSpecification};
use crate::search::{ascii_of, contains_bytes, ascii_bytes, occurs_in};

verus! {

broadcast use vstd::string::group_string_axioms;

/// Why the manager refused a request.
#[derive(Debug, Clone, Copy, PartialEq, Eq, Structural)]
pub enum ManagerError {
    /// A case of that name is registered already.
    DuplicateName,
    /// No case of that name is registered.
    NotFound,
}

/// One registered case: its name, the subject's arguments, whether Valgrind
/// wraps it, how it is judged, and its optional side channel.
pub struct Test {
    pub name: String,
    pub args: String,
    pub memcheck: bool,
    pub validator: ValidatorConfig,
    pub communicator: Option<CommunicatorConfig>,
}

/// What the contracts say of a registered case.
pub struct CaseView {
    pub name: Seq<char>,
    pub args: Seq<char>,
    pub memcheck: bool,
    pub timeout: u64,
    pub log_output: bool,
    pub has_communicator: bool,
}

impl Test {
    pub open spec fn spec_view(&self) -> CaseView {
        CaseView {
            name: self.name@,
            args: self.args@,
            memcheck: self.memcheck,
            timeout: self.validator.timeout,
            log_output: self.validator.log_output,
            has_communicator: self.communicator is Some,
        }
    }
}

pub open spec fn case_names(cases: Seq<CaseView>) -> Seq<Seq<char>> {
    cases.map_values(|c: CaseView| c.name)
}

/// The first index of a case named `name`, at or after `i`.
pub open spec fn index_from(cases: Seq<CaseView>, name: Seq<char>, i: int) -> Option<int>
    decreases cases.len() - i,
{
    if i < 0 || i >= cases.len() {
        None
    } else if cases[i].name == name {
        Some(i)
    } else {
        index_from(cases, name, i + 1)
    }
}

/// The executable, the working directory, and the registered cases in the
/// order of registration.
pub struct TestManager {
    pub name: String,
    elf: String,
    pub cwd: std::path::PathBuf,
    tests: Vec<Test>,
}

impl TestManager {
    /// The registered cases, in the order of registration.
    pub closed spec fn cases(&self) -> Seq<CaseView> {
        self.tests@.map_values(|t: Test| t.spec_view())
    }

    /// The assignment's name.
    pub closed spec fn assignment(&self) -> Seq<char> {
        self.name@
    }

    /// The working directory the cases run in.
    pub closed spec fn working_dir(&self) -> std::path::PathBuf {
        self.cwd
    }

    /// The name of the subject's executable in the working directory.
    pub closed spec fn elf(&self) -> Seq<char> {
        self.elf@
    }

    pub fn new(assignment: &str, elf: &str, cwd: std::path::PathBuf) -> (r: Self)
        ensures
            r.assignment() == assignment@,
            r.elf() == elf@,
            r.working_dir() == cwd,
            r.cases().len() == 0,
            case_names(r.cases()).no_duplicates(),
    {
        let r = TestManager {
            name: assignment.to_owned(),
            elf: elf.to_owned(),
            cwd,
            tests: Vec::new(),
        };
        assert(r.cases() =~= Seq::<CaseView>::empty());
        assert(case_names(r.cases()) =~= Seq::<Seq<char>>::empty());
        r
    }

    /// Registers a case at the end of the order; a name that is registered
    /// already is refused and nothing changes.
    pub fn add_test(
        &mut self,
        name: &str,
        args: &str,
        memcheck: bool,
        validator: ValidatorConfig,
        communicator: Option<CommunicatorConfig>,
    ) -> (r: Result<(), ManagerError>)
        ensures
            final(self).elf() == old(self).elf(),
            final(self).assignment() == old(self).assignment(),
            case_names(old(self).cases()).no_duplicates() ==> case_names(
                final(self).cases(),
            ).no_duplicates(),
            case_names(old(self).cases()).contains(name@) ==> (r == Err::<(), ManagerError>(
                ManagerError::DuplicateName,
            ) && final(self).cases() == old(self).cases()),
            !case_names(old(self).cases()).contains(name@) ==> (r is Ok && final(self).cases()
                == old(self).cases().push(
                CaseView {
                    name: name@,
                    args: args@,
                    memcheck: memcheck,
                    timeout: validator.timeout,
                    log_output: validator.log_output,
                    has_communicator: communicator is Some,
                },
            )),
    {
        if let Some(i) = self.find_test(name) {
            proof {
                lemma_index_from_some(self.cases(), name@, 0);
                assert(case_names(self.cases())[i as int] == name@);
            }
            return Err(ManagerError::DuplicateName);
        }
        proof {
            lemma_index_from_none(self.cases(), name@, 0);
            assert(!case_names(self.cases()).contains(name@)) by {
                if case_names(self.cases()).contains(name@) {
                    let k = choose|k: int|
                        0 <= k < case_names(self.cases()).len() && case_names(self.cases())[k]
                            == name@;
                    assert(self.cases()[k].name == name@);
                }
            }
        }
        let ghost before = self.cases();
        self.tests.push(Test { name: name.to_owned(), args: args.to_owned(), memcheck, validator, communicator });
        assert(self.cases() =~= before.push(self.tests@.last().spec_view()));
        assert(case_names(self.cases()) =~= case_names(before).push(name@));
        Ok(())
    }

    /// The names of the registered cases, in the order of registration.
    pub fn get_test_names(&self) -> (r: Vec<String>)
        ensures
            views_of(r@) == case_names(self.cases()),
    {
        let mut v: Vec<String> = Vec::new();
        let mut i: usize = 0;
        while i < self.tests.len()
            invariant
                i <= self.tests@.len(),
                views_of(v@) == case_names(self.cases()).subrange(0, i as int),
            decreases self.tests@.len() - i,
        {
            let ghost before = v@;
            v.push(self.tests[i].name.clone());
            i = i + 1;
            assert(views_of(v@) =~= case_names(self.cases()).subrange(0, i as int)) by {
                assert(views_of(v@) =~= views_of(before).push(self.tests@[i - 1].name@));
            }
        }
        assert(case_names(self.cases()).subrange(0, i as int) =~= case_names(self.cases()));
        v
    }

    /// The number of registered cases.
    pub fn len(&self) -> (r: usize)
        ensures
            r == self.cases().len(),
    {
        self.tests.len()
    }

    /// The index of the case named `name`.
    pub fn find_test(&self, name: &str) -> (r: Option<usize>)
        ensures
            r matches Some(i) ==> index_from(self.cases(), name@, 0) == Some(i as int),
            r is None ==> index_from(self.cases(), name@, 0) is None,
    {
        let key = String::from_str(name);
        let mut i: usize = 0;
        while i < self.tests.len()
            invariant
                key@ == name@,
                i <= self.tests@.len(),
                index_from(self.cases(), name@, 0) == index_from(self.cases(), name@, i as int),
            decreases self.tests@.len() - i,
        {
            if self.tests[i].name == key {
                return Some(i);
            }
            i = i + 1;
        }
        None
    }

    /// The case that `run_one(name)` runs: its index, or `NotFound`.
    pub fn run_one(&self, name: &str) -> (r: Result<usize, ManagerError>)
        ensures
            r matches Ok(i) ==> index_from(self.cases(), name@, 0) == Some(i as int),
            r matches Err(e) ==> e == ManagerError::NotFound && index_from(self.cases(), name@, 0) is None,
    {
        match self.find_test(name) {
            Some(i) => Ok(i),
            None => Err(ManagerError::NotFound),
        }
    }

    /// What the runner launches for case `i`.
    pub fn plan(&self, i: usize) -> (r: ProcessSpecification)
        requires
            i < self.cases().len(),
        ensures
            r.executable_path@ == "./"@ + self.elf(),
            views_of(r.arguments@) == words(self.cases()[i as int].args),
            self.cases()[i as int].memcheck ==> (r.memcheck_log_name matches Some(l) && l@
                == crate::process::memcheck_log_spec(self.cases()[i as int].name)),
            !self.cases()[i as int].memcheck ==> r.memcheck_log_name is None,
    {
        let t = &self.tests[i];
        ProcessSpecification::for_case(self.elf.as_str(), t.args.as_str(), t.memcheck, t.name.as_str())
    }

    /// The registered case at index `i`.
    pub fn case(&self, i: usize) -> (r: &Test)
        requires
            i < self.cases().len(),
        ensures
            r.spec_view() == self.cases()[i as int],
    {
        &self.tests[i]
    }

    /// Hands case `i`'s run to its validator, with the subject's command line
    /// and the working directory, and returns its verdict.
    pub fn judge(&self, i: usize, comm_out: Option<Vec<u8>>, result: ProcessOutput) -> bool
        requires
            i < self.cases().len(),
    {
        let args = self.plan(i).subject_args();
        self.tests[i].validator.validator.validate(&args, comm_out, result, &self.cwd)
    }
}

/// How a build went, read from the compiler's standard error.
#[derive(Debug, Clone, Copy, PartialEq, Eq, Structural)]
pub enum CompileStatus {
    Success,
    Warning,
    Error,
}

pub open spec fn compile_status_of(stderr: Seq<u8>) -> CompileStatus {
    if occurs_in(stderr, ascii_of("error"@)) {
        CompileStatus::Error
    } else if occurs_in(stderr, ascii_of("warning"@)) {
        CompileStatus::Warning
    } else {
        CompileStatus::Success
    }
}

/// Classifies a build by the compiler's standard error: any "error" makes it
/// fail, else any "warning" marks it.
pub fn compile_status(stderr: &[u8]) -> (r: CompileStatus)
    ensures
        r == compile_status_of(stderr@),
{
    let error = ascii_bytes("error");
    if contains_bytes(stderr, error.as_slice()) {
        return CompileStatus::Error;
    }
    let warning = ascii_bytes("warning");
    if contains_bytes(stderr, warning.as_slice()) {
        return CompileStatus::Warning;
    }
    CompileStatus::Success
}

impl CompileStatus {
    pub open spec fn spec_label(self) -> Seq<char> {
        match self {
            CompileStatus::Success => "success"@,
            CompileStatus::Warning => "warning"@,
            CompileStatus::Error => "error"@,
        }
    }

    /// The word the reports use for this status.
    pub fn label(&self) -> (r: String)
        ensures
            r@ == self.spec_label(),
    {
        match self {
            CompileStatus::Success => String::from_str("success"),
            CompileStatus::Warning => String::from_str("warning"),
            CompileStatus::Error => String::from_str("error"),
        }
    }
}

/// The file a build command writes: its last word. A command of fewer than
/// five words (compiler, flags, sources, `-o`, target) is refused.
pub fn compile_target(cmd: &str) -> (r: Option<String>)
    ensures
        words(cmd@).len() < 5 ==> r is None,
        words(cmd@).len() >= 5 ==> (r matches Some(t) && t@ == words(cmd@).last()),
{
    let w = split_words(cmd);
    if w.len() < 5 {
        None
    } else {
        assert(views_of(w@)[w@.len() - 1] == w@[w@.len() - 1]@);
        Some(w[w.len() - 1].clone())
    }
}

/// Whether the case of that name passed.
pub struct Verdict {
    pub test_name: String,
    pub passed: bool,
}

pub open spec fn verdict_views(v: Seq<Verdict>) -> Seq<(Seq<char>, bool)> {
    v.map_values(|x: Verdict| (x.test_name@, x.passed))
}

/// A run of every registered case in turn: the names in the order of
/// registration, and the verdicts recorded so far.
pub struct Batch {
    names: Vec<String>,
    verdicts: Vec<Verdict>,
}

impl Batch {
    /// The names of the cases, in the order of registration.
    pub closed spec fn names(&self) -> Seq<Seq<char>> {
        views_of(self.names@)
    }

    /// The verdicts recorded so far.
    pub closed spec fn results(&self) -> Seq<(Seq<char>, bool)> {
        verdict_views(self.verdicts@)
    }

    /// Each verdict recorded so far belongs to the case at its place.
    pub open spec fn wf(&self) -> bool {
        &&& self.results().len() <= self.names().len()
        &&& forall|i: int| 0 <= i < self.results().len() ==> #[trigger] self.results()[i].0 == self.names()[i]
    }

    pub open spec fn complete(&self) -> bool {
        self.results().len() == self.names().len()
    }

    /// The index of the case to run next, or `None` when every case has its
    /// verdict.
    pub fn next_case(&self) -> (r: Option<usize>)
        requires
            self.wf(),
        ensures
            self.complete() ==> r is None,
            !self.complete() ==> r == Some(self.results().len() as usize),
    {
        if self.verdicts.len() < self.names.len() {
            Some(self.verdicts.len())
        } else {
            None
        }
    }

    /// Records the verdict of the case that `next_case` named.
    pub fn record(&mut self, passed: bool)
        requires
            old(self).wf(),
            !old(self).complete(),
        ensures
            final(self).wf(),
            final(self).names() == old(self).names(),
            final(self).results() == old(self).results().push(
                (old(self).names()[old(self).results().len() as int], passed),
            ),
    {
        let i = self.verdicts.len();
        let v = Verdict { test_name: self.names[i].clone(), passed };
        self.verdicts.push(v);
        assert(self.results() =~= old(self).results().push((old(self).names()[i as int], passed)));
    }

    /// The verdicts recorded so far, in order.
    pub fn verdicts(&self) -> (r: &Vec<Verdict>)
        ensures
            verdict_views(r@) == self.results(),
    {
        &self.verdicts
    }
}

impl TestManager {
    /// Starts a run of every registered case in the order of registration.
    /// After a failed build no case runs: each one is recorded as failed.
    pub fn start_batch(&self, compilation: CompileStatus) -> (b: Batch)
        ensures
            b.wf(),
            b.names() == case_names(self.cases()),
            compilation == CompileStatus::Error ==> (b.complete() && forall|i: int|
                0 <= i < b.results().len() ==> !#[trigger] b.results()[i].1),
            compilation != CompileStatus::Error ==> b.results().len() == 0,
    {
        let names = self.get_test_names();
        let mut b = Batch { names, verdicts: Vec::new() };
        assert(b.results() =~= Seq::<(Seq<char>, bool)>::empty());
        if compilation == CompileStatus::Error {
            while b.verdicts.len() < b.names.len()
                invariant
                    b.wf(),
                    b.names() == case_names(self.cases()),
                    forall|i: int| 0 <= i < b.results().len() ==> !#[trigger] b.results()[i].1,
                decreases b.names@.len() - b.verdicts@.len(),
            {
                b.record(false);
            }
        }
        b
    }
}

/// Verdicts come in the order of registration: a finished batch holds one
/// verdict per registered case, under that case's name, in the order the
/// cases were registered, however long each run took and whatever it
/// returned.
pub proof fn lemma_verdicts_in_registration_order(b: Batch)
    requires
        b.wf(),
        b.complete(),
    ensures
        b.results().map_values(|r: (Seq<char>, bool)| r.0) == b.names(),
{
    assert(b.results().map_values(|r: (Seq<char>, bool)| r.0) =~= b.names());
}

proof fn lemma_index_from_some(cases: Seq<CaseView>, name: Seq<char>, i: int)
    requires
        index_from(cases, name, i) is Some,
    ensures
        0 <= index_from(cases, name, i)->0 < cases.len(),
        cases[index_from(cases, name, i)->0].name == name,
    decreases cases.len() - i,
{
    if i >= 0 && i < cases.len() && cases[i].name != name {
        lemma_index_from_some(cases, name, i + 1);
    }
}

proof fn lemma_index_from_none(cases: Seq<CaseView>, name: Seq<char>, i: int)
    requires
        0 <= i,
    ensures
        index_from(cases, name, i) is None <==> forall|j: int| i <= j < cases.len() ==> cases[j].name != name,
    decreases cases.len() - i,
{
    if i < cases.len() {
        lemma_index_from_none(cases, name, i + 1);
    }
}

} // verus!
