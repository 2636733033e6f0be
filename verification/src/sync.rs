//! The overwrite / commit state machine of a sync operation.
//!
//! A sync writes a workflow's JSON file into its directory and appends one
//! commit to the directory's history. When the target file already exists,
//! the operator must first confirm the overwrite; declining aborts the
//! operation with no side effects. The machine below fixes those decisions;
//! the surrounding binary performs the file test, the prompt, the write and
//! the commit, and feeds the outcome of each back in as an event.

use vstd::prelude::*;

verus! {

/// The states of one sync operation.
#[derive(Clone, Copy, Debug, PartialEq, Eq, Structural)]
pub enum SyncState {
    /// Testing whether the target file already exists.
    CheckingExists,
    /// Asking the operator whether to overwrite the existing file.
    Prompting,
    /// Writing the JSON bytes to the target file.
    Writing,
    /// Opening or initializing the repository and appending one commit.
    Committing,
    /// The operator declined the overwrite; nothing was touched.
    Aborted,
    /// The file is written and committed.
    Done,
}

/// What the world reported back for the action of the current state.
#[derive(Clone, Copy, Debug, PartialEq, Eq, Structural)]
pub enum SyncEvent {
    FileAbsent,
    FilePresent,
    Confirmed,
    Declined,
    WriteSucceeded,
    WriteFailed,
    CommitSucceeded,
    CommitFailed,
}

/// The failures a sync can end in.
#[derive(Clone, Copy, Debug, PartialEq, Eq, Structural)]
pub enum SyncError {
    /// The file write failed.
    IoError,
    /// Repository initialization, staging or commit creation failed.
    VersionControlError,
}

/// The action the caller must perform in a state.
#[derive(Clone, Copy, Debug, PartialEq, Eq, Structural)]
pub enum SyncAction {
    /// Test whether the target file exists.
    CheckFile,
    /// Ask the operator for overwrite confirmation (default: decline).
    PromptOperator,
    /// Write the JSON bytes to the target file.
    WriteFile,
    /// Open or initialize the repository, stage the file, commit once.
    CommitFile,
    /// Terminal state: nothing more to do.
    Finish,
}

/// What one step of the machine yields.
#[derive(Clone, Copy, Debug, PartialEq, Eq, Structural)]
pub enum StepOutcome {
    /// The machine moves to this state.
    Next(SyncState),
    /// The operation fails with this error; the machine stops.
    Fatal(SyncError),
    /// The event does not belong to the state; the machine rejects it.
    Rejected,
}

/// The transition table of the sync machine.
pub open spec fn step_spec(s: SyncState, e: SyncEvent) -> StepOutcome {
    match (s, e) {
        (SyncState::CheckingExists, SyncEvent::FileAbsent) => StepOutcome::Next(SyncState::Writing),
        (SyncState::CheckingExists, SyncEvent::FilePresent) => StepOutcome::Next(
            SyncState::Prompting,
        ),
        (SyncState::Prompting, SyncEvent::Confirmed) => StepOutcome::Next(SyncState::Writing),
        (SyncState::Prompting, SyncEvent::Declined) => StepOutcome::Next(SyncState::Aborted),
        (SyncState::Writing, SyncEvent::WriteSucceeded) => StepOutcome::Next(SyncState::Committing),
        (SyncState::Writing, SyncEvent::WriteFailed) => StepOutcome::Fatal(SyncError::IoError),
        (SyncState::Committing, SyncEvent::CommitSucceeded) => StepOutcome::Next(SyncState::Done),
        (SyncState::Committing, SyncEvent::CommitFailed) => StepOutcome::Fatal(
            SyncError::VersionControlError,
        ),
        _ => StepOutcome::Rejected,
    }
}

/// Advances the sync machine by one event.
pub fn step(s: SyncState, e: SyncEvent) -> (r: StepOutcome)
    ensures
        r == step_spec(s, e),
{
    match (s, e) {
        (SyncState::CheckingExists, SyncEvent::FileAbsent) => StepOutcome::Next(SyncState::Writing),
        (SyncState::CheckingExists, SyncEvent::FilePresent) => StepOutcome::Next(
            SyncState::Prompting,
        ),
        (SyncState::Prompting, SyncEvent::Confirmed) => StepOutcome::Next(SyncState::Writing),
        (SyncState::Prompting, SyncEvent::Declined) => StepOutcome::Next(SyncState::Aborted),
        (SyncState::Writing, SyncEvent::WriteSucceeded) => StepOutcome::Next(SyncState::Committing),
        (SyncState::Writing, SyncEvent::WriteFailed) => StepOutcome::Fatal(SyncError::IoError),
        (SyncState::Committing, SyncEvent::CommitSucceeded) => StepOutcome::Next(SyncState::Done),
        (SyncState::Committing, SyncEvent::CommitFailed) => StepOutcome::Fatal(
            SyncError::VersionControlError,
        ),
        _ => StepOutcome::Rejected,
    }
}

/// The action owed in a state.
pub open spec fn action_spec(s: SyncState) -> SyncAction {
    match s {
        SyncState::CheckingExists => SyncAction::CheckFile,
        SyncState::Prompting => SyncAction::PromptOperator,
        SyncState::Writing => SyncAction::WriteFile,
        SyncState::Committing => SyncAction::CommitFile,
        SyncState::Aborted => SyncAction::Finish,
        SyncState::Done => SyncAction::Finish,
    }
}

/// Tells the caller what to do in the given state.
pub fn required_action(s: SyncState) -> (a: SyncAction)
    ensures
        a == action_spec(s),
{
    match s {
        SyncState::CheckingExists => SyncAction::CheckFile,
        SyncState::Prompting => SyncAction::PromptOperator,
        SyncState::Writing => SyncAction::WriteFile,
        SyncState::Committing => SyncAction::CommitFile,
        SyncState::Aborted => SyncAction::Finish,
        SyncState::Done => SyncAction::Finish,
    }
}

/// How one run of a sync finds the world: whether the target file exists,
/// what the operator would answer, and whether the write and the commit
/// would succeed.
pub struct SyncEnv {
    pub file_exists: bool,
    pub confirm: bool,
    pub write_ok: bool,
    pub commit_ok: bool,
}

/// How a sync ends.
#[derive(Clone, Copy, Debug, PartialEq, Eq, Structural)]
pub enum SyncOutcome {
    /// File written, one commit appended.
    Done,
    /// Operator declined; nothing was touched.
    Aborted,
    Failed(SyncError),
}

/// What a whole run did: its outcome, and which effects took place.
pub struct RunRecord {
    pub outcome: SyncOutcome,
    /// The operator was prompted.
    pub prompted: bool,
    /// The target file was (over)written.
    pub wrote: bool,
    /// Exactly one commit was appended.
    pub committed: bool,
}

/// The event the world hands the machine in a given state, under `env`.
pub open spec fn env_event(s: SyncState, env: SyncEnv) -> SyncEvent {
    match s {
        SyncState::CheckingExists => if env.file_exists {
            SyncEvent::FilePresent
        } else {
            SyncEvent::FileAbsent
        },
        SyncState::Prompting => if env.confirm {
            SyncEvent::Confirmed
        } else {
            SyncEvent::Declined
        },
        SyncState::Writing => if env.write_ok {
            SyncEvent::WriteSucceeded
        } else {
            SyncEvent::WriteFailed
        },
        SyncState::Committing => if env.commit_ok {
            SyncEvent::CommitSucceeded
        } else {
            SyncEvent::CommitFailed
        },
        _ => SyncEvent::FileAbsent,
    }
}

/// A measure that every transition of the machine strictly decreases.
pub open spec fn state_rank(s: SyncState) -> nat {
    match s {
        SyncState::CheckingExists => 4,
        SyncState::Prompting => 3,
        SyncState::Writing => 2,
        SyncState::Committing => 1,
        SyncState::Aborted => 0,
        SyncState::Done => 0,
    }
}

/// Runs the machine from `s` to a terminal state, under `env`, recording
/// the outcome and the effects performed on the way.
pub open spec fn run_from(s: SyncState, env: SyncEnv) -> RunRecord
    decreases state_rank(s),
{
    match s {
        SyncState::Aborted => RunRecord {
            outcome: SyncOutcome::Aborted,
            prompted: false,
            wrote: false,
            committed: false,
        },
        SyncState::Done => RunRecord {
            outcome: SyncOutcome::Done,
            prompted: false,
            wrote: false,
            committed: false,
        },
        _ => {
            let e = env_event(s, env);
            match step_spec(s, e) {
                StepOutcome::Next(s2) => {
                    let rest = run_from(s2, env);
                    RunRecord {
                        outcome: rest.outcome,
                        prompted: (s is Prompting) || rest.prompted,
                        wrote: (s is Writing && env.write_ok) || rest.wrote,
                        committed: (s is Committing && env.commit_ok) || rest.committed,
                    }
                },
                StepOutcome::Fatal(err) => RunRecord {
                    outcome: SyncOutcome::Failed(err),
                    prompted: false,
                    wrote: false,
                    committed: false,
                },
                StepOutcome::Rejected => RunRecord {
                    outcome: SyncOutcome::Aborted,
                    prompted: false,
                    wrote: false,
                    committed: false,
                },
            }
        },
    }
}

/// One whole sync run under `env`, from the initial state.
pub open spec fn sync_run(env: SyncEnv) -> RunRecord {
    run_from(SyncState::CheckingExists, env)
}

/// The commits a run appends: one on success, none otherwise.
pub open spec fn commits_added(env: SyncEnv) -> nat {
    if sync_run(env).committed {
        1
    } else {
        0
    }
}

/// Whether a run succeeds outright: the overwrite question does not stop
/// it, and the write and the commit both succeed.
pub open spec fn sync_succeeds(env: SyncEnv) -> bool {
    (!env.file_exists || env.confirm) && env.write_ok && env.commit_ok
}

/// Law: a sync on a directory whose target file does not exist never
/// prompts, and when write and commit succeed it ends `Done` having
/// appended exactly one commit.
pub proof fn lemma_sync_absent_no_prompt(env: SyncEnv)
    requires
        !env.file_exists,
    ensures
        !sync_run(env).prompted,
        env.write_ok && env.commit_ok ==> sync_run(env).outcome == SyncOutcome::Done
            && sync_run(env).wrote && commits_added(env) == 1,
{
    reveal_with_fuel(run_from, 6);
}

/// Law: when the target file exists and the operator declines, the run
/// aborts: the file is not written and no commit is appended.
pub proof fn lemma_sync_declined_no_effects(env: SyncEnv)
    requires
        env.file_exists,
        !env.confirm,
    ensures
        sync_run(env).outcome == SyncOutcome::Aborted,
        sync_run(env).prompted,
        !sync_run(env).wrote,
        commits_added(env) == 0,
{
    reveal_with_fuel(run_from, 6);
}

/// Law: when the target file exists and the operator confirms, and write
/// and commit succeed, the run overwrites the file and appends exactly one
/// commit.
pub proof fn lemma_sync_confirmed_commits_once(env: SyncEnv)
    requires
        env.file_exists,
        env.confirm,
        env.write_ok,
        env.commit_ok,
    ensures
        sync_run(env).outcome == SyncOutcome::Done,
        sync_run(env).wrote,
        commits_added(env) == 1,
{
    reveal_with_fuel(run_from, 6);
}

/// Law: a failed write ends the run with an I/O error and appends no
/// commit; a failed commit ends it with a version-control error, the file
/// staying written.
pub proof fn lemma_sync_failures(env: SyncEnv)
    requires
        !env.file_exists || env.confirm,
    ensures
        !env.write_ok ==> sync_run(env).outcome == SyncOutcome::Failed(SyncError::IoError)
            && commits_added(env) == 0,
        env.write_ok && !env.commit_ok ==> sync_run(env).outcome == SyncOutcome::Failed(
            SyncError::VersionControlError,
        ) && sync_run(env).wrote && commits_added(env) == 0,
{
    reveal_with_fuel(run_from, 6);
}

/// The history length after a sequence of runs, starting from `initial`
/// commits: each run appends the commits [`commits_added`] says.
pub open spec fn commit_count_after(initial: nat, envs: Seq<SyncEnv>) -> nat
    decreases envs.len(),
{
    if envs.len() == 0 {
        initial
    } else {
        commit_count_after(initial + commits_added(envs[0]), envs.drop_first())
    }
}

/// Law: successful syncs grow the history linearly, exactly one commit
/// each, so the commit count after each run is strictly greater than
/// before it; history is only ever appended to, never rewritten.
pub proof fn lemma_sync_history_linear(initial: nat, envs: Seq<SyncEnv>)
    requires
        forall|i: int| 0 <= i < envs.len() ==> sync_succeeds(#[trigger] envs[i]),
    ensures
        commit_count_after(initial, envs) == initial + envs.len(),
    decreases envs.len(),
{
    if envs.len() > 0 {
        reveal_with_fuel(run_from, 6);
        assert(sync_succeeds(envs[0]));
        assert(commits_added(envs[0]) == 1);
        lemma_sync_history_linear(initial + 1, envs.drop_first());
    }
}

/// The fixed commit message of a sync: it names the workflow identifier.
pub fn commit_message(id: &str) -> (r: String)
    ensures
        r@ == "feat: sync from n8n (workflow "@ + id@ + ")"@,
{
    String::from_str("feat: sync from n8n (workflow ").concat(id).concat(")")
}

} // verus!
