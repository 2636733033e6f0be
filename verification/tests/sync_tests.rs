use n8n_workflow_sync::sync::{
    commit_message, required_action, step, StepOutcome, SyncAction, SyncError, SyncEvent,
    SyncState,
};

/// Drives the machine under a fixed world, counting what happens, the way
/// the binary does against the real filesystem.
fn drive(
    file_exists: bool,
    confirm: bool,
    write_ok: bool,
    commit_ok: bool,
) -> (Result<SyncState, SyncError>, u32, u32, u32) {
    let mut state = SyncState::CheckingExists;
    let mut prompts: u32 = 0;
    let mut writes: u32 = 0;
    let mut commits: u32 = 0;
    loop {
        let event = match required_action(state) {
            SyncAction::CheckFile => {
                if file_exists {
                    SyncEvent::FilePresent
                } else {
                    SyncEvent::FileAbsent
                }
            }
            SyncAction::PromptOperator => {
                prompts += 1;
                if confirm {
                    SyncEvent::Confirmed
                } else {
                    SyncEvent::Declined
                }
            }
            SyncAction::WriteFile => {
                if write_ok {
                    writes += 1;
                    SyncEvent::WriteSucceeded
                } else {
                    SyncEvent::WriteFailed
                }
            }
            SyncAction::CommitFile => {
                if commit_ok {
                    commits += 1;
                    SyncEvent::CommitSucceeded
                } else {
                    SyncEvent::CommitFailed
                }
            }
            SyncAction::Finish => return (Ok(state), prompts, writes, commits),
        };
        state = match step(state, event) {
            StepOutcome::Next(next) => next,
            StepOutcome::Fatal(err) => return (Err(err), prompts, writes, commits),
            StepOutcome::Rejected => panic!("the machine rejected its own event"),
        };
    }
}

#[test]
fn transition_table() {
    assert_eq!(
        step(SyncState::CheckingExists, SyncEvent::FileAbsent),
        StepOutcome::Next(SyncState::Writing)
    );
    assert_eq!(
        step(SyncState::CheckingExists, SyncEvent::FilePresent),
        StepOutcome::Next(SyncState::Prompting)
    );
    assert_eq!(step(SyncState::Prompting, SyncEvent::Confirmed), StepOutcome::Next(SyncState::Writing));
    assert_eq!(step(SyncState::Prompting, SyncEvent::Declined), StepOutcome::Next(SyncState::Aborted));
    assert_eq!(
        step(SyncState::Writing, SyncEvent::WriteSucceeded),
        StepOutcome::Next(SyncState::Committing)
    );
    assert_eq!(step(SyncState::Writing, SyncEvent::WriteFailed), StepOutcome::Fatal(SyncError::IoError));
    assert_eq!(
        step(SyncState::Committing, SyncEvent::CommitSucceeded),
        StepOutcome::Next(SyncState::Done)
    );
    assert_eq!(
        step(SyncState::Committing, SyncEvent::CommitFailed),
        StepOutcome::Fatal(SyncError::VersionControlError)
    );
}

#[test]
fn rejects_events_that_do_not_belong_to_the_state() {
    assert_eq!(step(SyncState::CheckingExists, SyncEvent::Confirmed), StepOutcome::Rejected);
    assert_eq!(step(SyncState::Done, SyncEvent::FileAbsent), StepOutcome::Rejected);
    assert_eq!(step(SyncState::Aborted, SyncEvent::CommitSucceeded), StepOutcome::Rejected);
}

#[test]
fn absent_file_syncs_without_prompting_and_commits_once() {
    let (end, prompts, writes, commits) = drive(false, false, true, true);
    assert_eq!(end, Ok(SyncState::Done));
    assert_eq!(prompts, 0);
    assert_eq!(writes, 1);
    assert_eq!(commits, 1);
}

#[test]
fn declined_overwrite_aborts_with_no_effects() {
    let (end, prompts, writes, commits) = drive(true, false, true, true);
    assert_eq!(end, Ok(SyncState::Aborted));
    assert_eq!(prompts, 1);
    assert_eq!(writes, 0);
    assert_eq!(commits, 0);
}

#[test]
fn confirmed_overwrite_writes_and_commits_once() {
    let (end, prompts, writes, commits) = drive(true, true, true, true);
    assert_eq!(end, Ok(SyncState::Done));
    assert_eq!(prompts, 1);
    assert_eq!(writes, 1);
    assert_eq!(commits, 1);
}

#[test]
fn failures_surface_distinguishably() {
    let (end, _, writes, commits) = drive(false, false, false, true);
    assert_eq!(end, Err(SyncError::IoError));
    assert_eq!(writes, 0);
    assert_eq!(commits, 0);

    let (end, _, writes, commits) = drive(false, false, true, false);
    assert_eq!(end, Err(SyncError::VersionControlError));
    assert_eq!(writes, 1);
    assert_eq!(commits, 0);
}

#[test]
fn repeated_syncs_grow_history_linearly() {
    let mut history: u32 = 0;
    let mut counts = Vec::new();
    for _ in 0..5 {
        let (end, _, _, commits) = drive(true, true, true, true);
        assert_eq!(end, Ok(SyncState::Done));
        history += commits;
        counts.push(history);
    }
    assert_eq!(counts, vec![1, 2, 3, 4, 5]);
}

#[test]
fn commit_message_names_the_workflow() {
    let msg = commit_message("wf-17");
    assert_eq!(msg, "feat: sync from n8n (workflow wf-17)");
    assert!(msg.contains("wf-17"));
}
