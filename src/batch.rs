//! The re-encryption orchestrator. Each target file goes through a verify
//! phase (decrypt) and, only when that succeeded, a commit phase (in-place
//! encrypt). A failure is recorded against its file and the batch moves on
//! to the next one; the result tallies successes and failures.
//!
//! The engine itself is driven from outside: `next_step` says what to run,
//! and `report` takes its outcome.
use vstd::prelude::*;

verus! {

/// The phase of a file's cycle.
#[derive(Clone, Copy, PartialEq, Eq, Structural)]
pub enum Stage {
    Verify,
    Commit,
}

/// How a file's cycle ended.
pub enum FileOutcome {
    /// The decrypt check failed; the file was not touched.
    VerifyFailed(String),
    /// The in-place encryption failed; the file's content is whatever the
    /// engine left behind.
    CommitFailed(String),
    /// The file was re-encrypted.
    Committed,
}

/// What the engine must do next.
pub enum Step {
    /// Decrypt the file at this index, to check it.
    Decrypt(usize),
    /// Encrypt the file at this index in place, for every key of the keyring.
    EncryptInPlace(usize),
    /// Every file has been handled.
    Finished,
}

/// One failed file: its path, the phase that failed and the engine's message.
pub struct FileFailure {
    pub path: String,
    pub stage: Stage,
    pub detail: String,
}

impl View for FileFailure {
    type V = (Seq<char>, Stage, Seq<char>);

    open spec fn view(&self) -> (Seq<char>, Stage, Seq<char>) {
        (self.path@, self.stage, self.detail@)
    }
}

/// The tally of a batch.
pub struct BatchResult {
    pub successes: usize,
    pub failures: Vec<FileFailure>,
}

/// The state of a batch, as a value: the files, the outcomes of the files
/// handled so far (the file in progress is the next one) and its phase.
pub struct BatchView {
    pub files: Seq<String>,
    pub stage: Stage,
    pub outcomes: Seq<FileOutcome>,
}

/// The states that a batch can be in: no more outcomes than files, and a
/// finished batch is not in the middle of a commit.
pub open spec fn well_formed(v: BatchView) -> bool {
    &&& v.files.len() <= usize::MAX
    &&& v.outcomes.len() <= v.files.len()
    &&& v.outcomes.len() == v.files.len() ==> v.stage == Stage::Verify
}

/// Every file has an outcome.
pub open spec fn is_done(v: BatchView) -> bool {
    v.outcomes.len() >= v.files.len()
}

/// What the engine must do in a given state.
pub open spec fn step_of(v: BatchView) -> Step {
    if is_done(v) {
        Step::Finished
    } else {
        match v.stage {
            Stage::Verify => Step::Decrypt(v.outcomes.len() as usize),
            Stage::Commit => Step::EncryptInPlace(v.outcomes.len() as usize),
        }
    }
}

/// The state after the engine's outcome for the current step. A finished
/// batch stays as it is.
pub open spec fn after_report(v: BatchView, r: Result<(), String>) -> BatchView {
    if is_done(v) {
        v
    } else {
        match (v.stage, r) {
            (Stage::Verify, Ok(_)) => BatchView { stage: Stage::Commit, ..v },
            (Stage::Verify, Err(e)) => BatchView {
                stage: Stage::Verify,
                outcomes: v.outcomes.push(FileOutcome::VerifyFailed(e)),
                ..v
            },
            (Stage::Commit, Ok(_)) => BatchView {
                stage: Stage::Verify,
                outcomes: v.outcomes.push(FileOutcome::Committed),
                ..v
            },
            (Stage::Commit, Err(e)) => BatchView {
                stage: Stage::Verify,
                outcomes: v.outcomes.push(FileOutcome::CommitFailed(e)),
                ..v
            },
        }
    }
}

/// The number of committed files.
pub open spec fn committed_count(outcomes: Seq<FileOutcome>) -> nat
    decreases outcomes.len(),
{
    if outcomes.len() == 0 {
        0
    } else {
        committed_count(outcomes.drop_last()) + (if outcomes.last() is Committed { 1nat } else { 0nat })
    }
}

/// The failure entry of one file, if it failed.
pub open spec fn failure_entry(path: String, o: FileOutcome) -> Seq<(Seq<char>, Stage, Seq<char>)> {
    match o {
        FileOutcome::VerifyFailed(e) => seq![(path@, Stage::Verify, e@)],
        FileOutcome::CommitFailed(e) => seq![(path@, Stage::Commit, e@)],
        FileOutcome::Committed => Seq::empty(),
    }
}

/// The failed files among the first `outcomes.len()` files, in file order.
pub open spec fn failures_of(files: Seq<String>, outcomes: Seq<FileOutcome>) -> Seq<(Seq<char>, Stage, Seq<char>)>
    decreases outcomes.len(),
{
    if outcomes.len() == 0 {
        Seq::empty()
    } else {
        failures_of(files, outcomes.drop_last()) + failure_entry(
            files[outcomes.len() - 1],
            outcomes.last(),
        )
    }
}

/// The failures of a tally, as values.
pub open spec fn failure_views(v: Seq<FileFailure>) -> Seq<(Seq<char>, Stage, Seq<char>)> {
    v.map_values(|f: FileFailure| f@)
}

/// Folds the outcomes of the first files into a tally, never stopping at a
/// failure: successes are counted, failures are listed in file order.
pub fn tally(files: &Vec<String>, outcomes: &Vec<FileOutcome>) -> (r: BatchResult)
    requires
        outcomes@.len() <= files@.len(),
    ensures
        r.successes == committed_count(outcomes@),
        failure_views(r.failures@) == failures_of(files@, outcomes@),
{
    let mut successes: usize = 0;
    let mut failures: Vec<FileFailure> = Vec::new();
    let mut i: usize = 0;
    while i < outcomes.len()
        invariant
            i <= outcomes@.len() <= files@.len(),
            successes == committed_count(outcomes@.take(i as int)),
            successes <= i,
            failure_views(failures@) == failures_of(files@, outcomes@.take(i as int)),
        decreases outcomes@.len() - i,
    {
        let ghost prev = failures@;
        assert(outcomes@.take(i + 1).drop_last() =~= outcomes@.take(i as int));
        match &outcomes[i] {
            FileOutcome::Committed => {
                successes += 1;
                assert(failure_entry(files@[i as int], outcomes@[i as int]) =~= Seq::empty());
                assert(failure_views(failures@) =~= failures_of(files@, outcomes@.take(i + 1)));
            },
            FileOutcome::VerifyFailed(e) => {
                failures.push(FileFailure { path: files[i].clone(), stage: Stage::Verify, detail: e.clone() });
                assert(failure_views(failures@) =~= failure_views(prev).push((files@[i as int]@, Stage::Verify, e@)));
                assert(failure_views(failures@) =~= failures_of(files@, outcomes@.take(i + 1)));
            },
            FileOutcome::CommitFailed(e) => {
                failures.push(FileFailure { path: files[i].clone(), stage: Stage::Commit, detail: e.clone() });
                assert(failure_views(failures@) =~= failure_views(prev).push((files@[i as int]@, Stage::Commit, e@)));
                assert(failure_views(failures@) =~= failures_of(files@, outcomes@.take(i + 1)));
            },
        }
        i += 1;
    }
    assert(outcomes@.take(i as int) =~= outcomes@);
    BatchResult { successes, failures }
}

/// The work left in a state, in engine steps.
pub open spec fn steps_left(v: BatchView) -> nat {
    if is_done(v) {
        0
    } else {
        ((2 * (v.files.len() - v.outcomes.len())) - (if v.stage == Stage::Commit { 1int } else { 0int })) as nat
    }
}

/// Every report keeps a batch well formed.
pub proof fn lemma_report_keeps_well_formed(v: BatchView, r: Result<(), String>)
    requires
        well_formed(v),
    ensures
        well_formed(after_report(v, r)),
{
}

/// Every report on an unfinished batch brings it one step nearer its end, so
/// a batch of n files is finished after at most 2n reports.
pub proof fn lemma_report_progresses(v: BatchView, r: Result<(), String>)
    requires
        well_formed(v),
        !is_done(v),
    ensures
        steps_left(after_report(v, r)) < steps_left(v),
        steps_left(v) <= 2 * v.files.len(),
{
}

/// A failure does not halt the batch: it is recorded against the current
/// file, and the next step is the check of the following file, or the end
/// when there is none.
pub proof fn lemma_failure_moves_on(v: BatchView, e: String)
    requires
        well_formed(v),
        !is_done(v),
    ensures
        after_report(v, Err(e)).outcomes.len() == v.outcomes.len() + 1,
        after_report(v, Err(e)).outcomes.last() is VerifyFailed || after_report(v, Err(e)).outcomes.last() is CommitFailed,
        v.outcomes.len() + 1 < v.files.len() ==> step_of(after_report(v, Err(e))) == Step::Decrypt((v.outcomes.len() + 1) as usize),
        v.outcomes.len() + 1 == v.files.len() ==> step_of(after_report(v, Err(e))) is Finished,
{
}

/// A file is encrypted in place only right after its check succeeded: the
/// commit step for a file is reached from its decrypt step and an `Ok`, or
/// not at all.
pub proof fn lemma_commit_follows_successful_check(v: BatchView, r: Result<(), String>, k: usize)
    requires
        well_formed(v),
        step_of(after_report(v, r)) == Step::EncryptInPlace(k),
    ensures
        step_of(v) == Step::Decrypt(k),
        r is Ok,
        after_report(v, r).outcomes == v.outcomes,
{
}

/// Outcomes once recorded never change, and every step names the first file
/// without an outcome: a file whose check failed is never encrypted.
pub proof fn lemma_outcomes_are_final(v: BatchView, r: Result<(), String>)
    requires
        well_formed(v),
    ensures
        after_report(v, r).outcomes.len() >= v.outcomes.len(),
        after_report(v, r).outcomes.take(v.outcomes.len() as int) == v.outcomes,
        after_report(v, r).files == v.files,
        step_of(v) matches Step::Decrypt(k) ==> k == v.outcomes.len(),
        step_of(v) matches Step::EncryptInPlace(k) ==> k == v.outcomes.len(),
{
    assert(after_report(v, r).outcomes.take(v.outcomes.len() as int) =~= v.outcomes);
}

proof fn lemma_tally_sizes(files: Seq<String>, outcomes: Seq<FileOutcome>)
    ensures
        committed_count(outcomes) + failures_of(files, outcomes).len() == outcomes.len(),
        failures_of(files, outcomes).len() == 0 <==> forall|i: int| 0 <= i < outcomes.len() ==> #[trigger] outcomes[i] is Committed,
    decreases outcomes.len(),
{
    if outcomes.len() > 0 {
        let rest = outcomes.drop_last();
        lemma_tally_sizes(files, rest);
        if failures_of(files, outcomes).len() == 0 {
            assert forall|i: int| 0 <= i < outcomes.len() implies #[trigger] outcomes[i] is Committed by {
                if i < rest.len() {
                    assert(rest[i] == outcomes[i]);
                }
            }
        }
        if forall|i: int| 0 <= i < outcomes.len() ==> #[trigger] outcomes[i] is Committed {
            assert forall|i: int| 0 <= i < rest.len() implies #[trigger] rest[i] is Committed by {
                assert(rest[i] == outcomes[i]);
            }
            assert(outcomes[outcomes.len() - 1] is Committed);
        }
    }
}

/// A finished batch accounts for every file exactly once: successes and
/// failures add up to the number of files, and there is no failure exactly
/// when every file was committed.
pub proof fn lemma_finished_batch_accounts_every_file(v: BatchView)
    requires
        well_formed(v),
        is_done(v),
    ensures
        committed_count(v.outcomes) + failures_of(v.files, v.outcomes).len() == v.files.len(),
        failures_of(v.files, v.outcomes).len() == 0 <==> forall|i: int| 0 <= i < v.files.len() ==> #[trigger] v.outcomes[i] is Committed,
{
    lemma_tally_sizes(v.files, v.outcomes);
}

impl BatchResult {
    /// The batch succeeded when no file failed.
    pub fn all_succeeded(&self) -> (r: bool)
        ensures
            r == (self.failures@.len() == 0),
    {
        self.failures.len() == 0
    }

    /// The process status for this tally: 0 when every file succeeded, else 1.
    pub fn exit_code(&self) -> (r: i32)
        ensures
            r == (if self.failures@.len() == 0 { 0i32 } else { 1i32 }),
    {
        if self.failures.len() == 0 {
            0
        } else {
            1
        }
    }
}

/// A batch in progress over a fixed list of target files, in the order given.
pub struct Batch {
    files: Vec<String>,
    stage: Stage,
    outcomes: Vec<FileOutcome>,
}

impl View for Batch {
    type V = BatchView;

    closed spec fn view(&self) -> BatchView {
        BatchView { files: self.files@, stage: self.stage, outcomes: self.outcomes@ }
    }
}

impl Batch {
    /// A batch that has handled none of `files` yet.
    pub fn new(files: Vec<String>) -> (r: Batch)
        ensures
            r@.files == files@,
            r@.outcomes == Seq::<FileOutcome>::empty(),
            r@.stage == Stage::Verify,
            well_formed(r@),
    {
        let count: usize = files.len();
        assert(count <= usize::MAX);
        Batch { files, stage: Stage::Verify, outcomes: Vec::new() }
    }

    /// The number of target files.
    pub fn len(&self) -> (r: usize)
        ensures
            r == self@.files.len(),
    {
        self.files.len()
    }

    /// The path of the file at `index`.
    pub fn path(&self, index: usize) -> (r: &String)
        requires
            index < self@.files.len(),
        ensures
            *r == self@.files[index as int],
    {
        &self.files[index]
    }

    /// Whether every file has been handled.
    pub fn is_finished(&self) -> (r: bool)
        ensures
            r == is_done(self@),
    {
        self.outcomes.len() >= self.files.len()
    }

    /// What the engine must do next.
    pub fn next_step(&self) -> (r: Step)
        ensures
            r == step_of(self@),
    {
        if self.outcomes.len() >= self.files.len() {
            Step::Finished
        } else {
            match self.stage {
                Stage::Verify => Step::Decrypt(self.outcomes.len()),
                Stage::Commit => Step::EncryptInPlace(self.outcomes.len()),
            }
        }
    }

    /// Takes the engine's outcome for the step that `next_step` gave: a
    /// successful check moves the file on to its commit; any failure is
    /// recorded against the file and the batch goes on with the next one.
    pub fn report(&mut self, outcome: Result<(), String>)
        ensures
            final(self)@ == after_report(old(self)@, outcome),
            well_formed(old(self)@) ==> well_formed(final(self)@),
    {
        if self.outcomes.len() >= self.files.len() {
            return;
        }
        match (self.stage, outcome) {
            (Stage::Verify, Ok(_)) => {
                self.stage = Stage::Commit;
            },
            (Stage::Verify, Err(e)) => {
                self.outcomes.push(FileOutcome::VerifyFailed(e));
            },
            (Stage::Commit, Ok(_)) => {
                self.stage = Stage::Verify;
                self.outcomes.push(FileOutcome::Committed);
            },
            (Stage::Commit, Err(e)) => {
                self.stage = Stage::Verify;
                self.outcomes.push(FileOutcome::CommitFailed(e));
            },
        }
    }

    /// The tally of the files handled so far.
    pub fn result(&self) -> (r: BatchResult)
        requires
            well_formed(self@),
        ensures
            r.successes == committed_count(self@.outcomes),
            failure_views(r.failures@) == failures_of(self@.files, self@.outcomes),
    {
        tally(&self.files, &self.outcomes)
    }
}

} // verus!
