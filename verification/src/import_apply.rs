//! Committing staged imported assets into a vault, one step at a time: the
//! caller performs each action and reports what happened; every failure
//! before the first asset is placed discards the staged files, and every
//! failure after it rolls the placed assets back.
use crate::text::{chars_of, extend_chars, string_of};
use vstd::prelude::*;

verus! {

/// Why committing an import failed.
#[derive(Debug, Clone, Copy, PartialEq, Eq, Structural)]
pub enum ImportApplyFailure {
    /// The vault changed while the assets were being prepared.
    ChangedWhilePreparing,
    /// The vault changed just before the assets were committed.
    ChangedBeforeCommit,
    /// The vault changed while the committed assets were being verified.
    ChangedWhileVerifying,
    /// The reported step failed with its own error.
    StepFailed,
}

/// Where committing an import stands.
#[derive(Debug, Clone, Copy, PartialEq, Eq, Structural)]
pub enum ImportApplyState {
    /// The vault's revision is compared with the one the import began from.
    CheckBaseline,
    /// The transaction's folders and record are being prepared.
    Preparing,
    /// The revision is compared again once the transaction is recorded.
    RecheckBaseline,
    /// The transaction is being marked as applying.
    MarkApplying,
    /// The revision is compared a last time before anything is placed.
    CheckBeforeCommit,
    /// The staged asset at this position is being placed.
    Apply(usize),
    /// The placed assets are being verified.
    Verify,
    /// The placed assets are being rolled back after this failure.
    RollingBack(ImportApplyFailure),
    /// Committing ended.
    Done,
}

/// What the caller reports after performing an action.
#[derive(Debug, Clone, Copy, PartialEq, Eq, Structural)]
pub enum ImportApplyEvent {
    /// The revision was read: `Some(true)` when it equals the one the
    /// import began from, `None` when it could not be read.
    Revision(Option<bool>),
    /// The requested step succeeded or not.
    Step(bool),
    /// The placed assets were verified: `Some(true)` when two readings of
    /// the vault agree, `None` when verifying failed.
    Verified(Option<bool>),
    /// The rollback succeeded or not.
    RolledBack(bool),
}

/// What the caller does next.
#[derive(Debug, Clone, Copy, PartialEq, Eq, Structural)]
pub enum ImportApplyAction {
    /// Read the vault's revision.
    ReadRevision,
    /// Collect the folders to create and record the transaction as prepared.
    PrepareTransaction,
    /// Record the transaction as applying.
    MarkApplying,
    /// Place the staged asset at this position.
    ApplyTarget(usize),
    /// Verify the placed assets.
    Verify,
    /// Roll the placed assets back.
    RollBack,
    /// Finish: nothing was staged, so nothing changes.
    FinishUnchanged,
    /// Discard the empty transaction and finish; nothing changes.
    DiscardUnchanged,
    /// Finish: the assets are committed.
    Commit,
    /// Discard the transaction and fail for this reason.
    DiscardAndFail(ImportApplyFailure),
    /// Fail for this reason, telling that the rollback was incomplete.
    FailUnrecovered(ImportApplyFailure),
    /// The report does not fit the current step; nothing changes.
    Ignore,
}

/// The next state and action after `event`, for an import with
/// `target_count` staged assets, `has_transaction` telling whether any
/// staging happened at all.
pub open spec fn spec_import_apply_step(
    state: ImportApplyState,
    has_transaction: bool,
    target_count: usize,
    event: ImportApplyEvent,
) -> (ImportApplyState, ImportApplyAction) {
    let fail = |f: ImportApplyFailure| (ImportApplyState::Done, ImportApplyAction::DiscardAndFail(f));
    let roll = |f: ImportApplyFailure| (ImportApplyState::RollingBack(f), ImportApplyAction::RollBack);
    match (state, event) {
        (ImportApplyState::CheckBaseline, ImportApplyEvent::Revision(r)) => match r {
            None => fail(ImportApplyFailure::StepFailed),
            Some(false) => fail(ImportApplyFailure::ChangedWhilePreparing),
            Some(true) => if !has_transaction {
                (ImportApplyState::Done, ImportApplyAction::FinishUnchanged)
            } else if target_count == 0 {
                (ImportApplyState::Done, ImportApplyAction::DiscardUnchanged)
            } else {
                (ImportApplyState::Preparing, ImportApplyAction::PrepareTransaction)
            },
        },
        (ImportApplyState::Preparing, ImportApplyEvent::Step(ok)) => if ok {
            (ImportApplyState::RecheckBaseline, ImportApplyAction::ReadRevision)
        } else {
            fail(ImportApplyFailure::StepFailed)
        },
        (ImportApplyState::RecheckBaseline, ImportApplyEvent::Revision(r)) => match r {
            None => fail(ImportApplyFailure::StepFailed),
            Some(false) => fail(ImportApplyFailure::ChangedWhilePreparing),
            Some(true) => (ImportApplyState::MarkApplying, ImportApplyAction::MarkApplying),
        },
        (ImportApplyState::MarkApplying, ImportApplyEvent::Step(ok)) => if ok {
            (ImportApplyState::CheckBeforeCommit, ImportApplyAction::ReadRevision)
        } else {
            fail(ImportApplyFailure::StepFailed)
        },
        (ImportApplyState::CheckBeforeCommit, ImportApplyEvent::Revision(r)) => match r {
            None => roll(ImportApplyFailure::StepFailed),
            Some(false) => roll(ImportApplyFailure::ChangedBeforeCommit),
            Some(true) => if target_count == 0 {
                (ImportApplyState::Verify, ImportApplyAction::Verify)
            } else {
                (ImportApplyState::Apply(0), ImportApplyAction::ApplyTarget(0))
            },
        },
        (ImportApplyState::Apply(i), ImportApplyEvent::Step(ok)) => if !ok {
            roll(ImportApplyFailure::StepFailed)
        } else if i + 1 < target_count {
            (ImportApplyState::Apply((i + 1) as usize), ImportApplyAction::ApplyTarget((i + 1) as usize))
        } else {
            (ImportApplyState::Verify, ImportApplyAction::Verify)
        },
        (ImportApplyState::Verify, ImportApplyEvent::Verified(r)) => match r {
            None => roll(ImportApplyFailure::StepFailed),
            Some(false) => roll(ImportApplyFailure::ChangedWhileVerifying),
            Some(true) => (ImportApplyState::Done, ImportApplyAction::Commit),
        },
        (ImportApplyState::RollingBack(f), ImportApplyEvent::RolledBack(ok)) => if ok {
            (ImportApplyState::Done, ImportApplyAction::DiscardAndFail(f))
        } else {
            (ImportApplyState::Done, ImportApplyAction::FailUnrecovered(f))
        },
        _ => (state, ImportApplyAction::Ignore),
    }
}

/// Where committing an import starts, and what the caller does first.
pub fn import_apply_start() -> (r: (ImportApplyState, ImportApplyAction))
    ensures
        r == (ImportApplyState::CheckBaseline, ImportApplyAction::ReadRevision),
{
    (ImportApplyState::CheckBaseline, ImportApplyAction::ReadRevision)
}

/// The next state and action after the caller reports `event`.
pub fn import_apply_step(
    state: ImportApplyState,
    has_transaction: bool,
    target_count: usize,
    event: ImportApplyEvent,
) -> (r: (ImportApplyState, ImportApplyAction))
    ensures
        r == spec_import_apply_step(state, has_transaction, target_count, event),
{
    match (state, event) {
        (ImportApplyState::CheckBaseline, ImportApplyEvent::Revision(r)) => match r {
            None => (ImportApplyState::Done, ImportApplyAction::DiscardAndFail(ImportApplyFailure::StepFailed)),
            Some(false) => (
                ImportApplyState::Done,
                ImportApplyAction::DiscardAndFail(ImportApplyFailure::ChangedWhilePreparing),
            ),
            Some(true) => if !has_transaction {
                (ImportApplyState::Done, ImportApplyAction::FinishUnchanged)
            } else if target_count == 0 {
                (ImportApplyState::Done, ImportApplyAction::DiscardUnchanged)
            } else {
                (ImportApplyState::Preparing, ImportApplyAction::PrepareTransaction)
            },
        },
        (ImportApplyState::Preparing, ImportApplyEvent::Step(ok)) => if ok {
            (ImportApplyState::RecheckBaseline, ImportApplyAction::ReadRevision)
        } else {
            (ImportApplyState::Done, ImportApplyAction::DiscardAndFail(ImportApplyFailure::StepFailed))
        },
        (ImportApplyState::RecheckBaseline, ImportApplyEvent::Revision(r)) => match r {
            None => (ImportApplyState::Done, ImportApplyAction::DiscardAndFail(ImportApplyFailure::StepFailed)),
            Some(false) => (
                ImportApplyState::Done,
                ImportApplyAction::DiscardAndFail(ImportApplyFailure::ChangedWhilePreparing),
            ),
            Some(true) => (ImportApplyState::MarkApplying, ImportApplyAction::MarkApplying),
        },
        (ImportApplyState::MarkApplying, ImportApplyEvent::Step(ok)) => if ok {
            (ImportApplyState::CheckBeforeCommit, ImportApplyAction::ReadRevision)
        } else {
            (ImportApplyState::Done, ImportApplyAction::DiscardAndFail(ImportApplyFailure::StepFailed))
        },
        (ImportApplyState::CheckBeforeCommit, ImportApplyEvent::Revision(r)) => match r {
            None => (ImportApplyState::RollingBack(ImportApplyFailure::StepFailed), ImportApplyAction::RollBack),
            Some(false) => (
                ImportApplyState::RollingBack(ImportApplyFailure::ChangedBeforeCommit),
                ImportApplyAction::RollBack,
            ),
            Some(true) => if target_count == 0 {
                (ImportApplyState::Verify, ImportApplyAction::Verify)
            } else {
                (ImportApplyState::Apply(0), ImportApplyAction::ApplyTarget(0))
            },
        },
        (ImportApplyState::Apply(i), ImportApplyEvent::Step(ok)) => if !ok {
            (ImportApplyState::RollingBack(ImportApplyFailure::StepFailed), ImportApplyAction::RollBack)
        } else if i < target_count && i + 1 < target_count {
            (ImportApplyState::Apply(i + 1), ImportApplyAction::ApplyTarget(i + 1))
        } else {
            (ImportApplyState::Verify, ImportApplyAction::Verify)
        },
        (ImportApplyState::Verify, ImportApplyEvent::Verified(r)) => match r {
            None => (ImportApplyState::RollingBack(ImportApplyFailure::StepFailed), ImportApplyAction::RollBack),
            Some(false) => (
                ImportApplyState::RollingBack(ImportApplyFailure::ChangedWhileVerifying),
                ImportApplyAction::RollBack,
            ),
            Some(true) => (ImportApplyState::Done, ImportApplyAction::Commit),
        },
        (ImportApplyState::RollingBack(f), ImportApplyEvent::RolledBack(ok)) => if ok {
            (ImportApplyState::Done, ImportApplyAction::DiscardAndFail(f))
        } else {
            (ImportApplyState::Done, ImportApplyAction::FailUnrecovered(f))
        },
        _ => (state, ImportApplyAction::Ignore),
    }
}

/// The error a failed commit reports: the vault-changed message for its
/// reason, or the failed step's own error; and, when the rollback was
/// incomplete, a sentence saying so.
pub open spec fn spec_import_apply_error(failure: ImportApplyFailure, step_error: Seq<char>, recovered: bool) -> Seq<char> {
    let base = match failure {
        ImportApplyFailure::ChangedWhilePreparing => "The vault changed while its assets were being prepared. Reload it and try again."@,
        ImportApplyFailure::ChangedBeforeCommit => "The vault changed before its assets could be committed. Reload it and try again."@,
        ImportApplyFailure::ChangedWhileVerifying => "The vault changed while its imported assets were being verified. Reload it and try again."@,
        ImportApplyFailure::StepFailed => step_error,
    };
    if recovered {
        base
    } else {
        base + " The interrupted asset import could not be fully rolled back. Reopen the vault before editing again."@
    }
}

/// The error a failed commit reports.
pub fn import_apply_error(failure: ImportApplyFailure, step_error: &str, recovered: bool) -> (r: String)
    ensures
        r@ == spec_import_apply_error(failure, step_error@, recovered),
{
    let mut v = match failure {
        ImportApplyFailure::ChangedWhilePreparing => chars_of(
            "The vault changed while its assets were being prepared. Reload it and try again.",
        ),
        ImportApplyFailure::ChangedBeforeCommit => chars_of(
            "The vault changed before its assets could be committed. Reload it and try again.",
        ),
        ImportApplyFailure::ChangedWhileVerifying => chars_of(
            "The vault changed while its imported assets were being verified. Reload it and try again.",
        ),
        ImportApplyFailure::StepFailed => chars_of(step_error),
    };
    if !recovered {
        extend_chars(
            &mut v,
            &chars_of(
                " The interrupted asset import could not be fully rolled back. Reopen the vault before editing again.",
            ),
        );
    }
    string_of(&v)
}

// ---------------------------------------------------------------------------
// What every import keeps
// ---------------------------------------------------------------------------

/// Whether a report says the step went wrong: a revision or verification
/// that does not match or could not be read, or a failed step.
pub open spec fn spec_import_report_fails(event: ImportApplyEvent) -> bool {
    match event {
        ImportApplyEvent::Revision(r) => r != Some(true),
        ImportApplyEvent::Step(ok) => !ok,
        ImportApplyEvent::Verified(r) => r != Some(true),
        ImportApplyEvent::RolledBack(ok) => !ok,
    }
}

/// Imported assets are committed only once verifying the placed assets
/// found the vault unchanged.
pub proof fn lemma_commit_only_after_verification(
    state: ImportApplyState,
    has_transaction: bool,
    target_count: usize,
    event: ImportApplyEvent,
)
    ensures
        spec_import_apply_step(state, has_transaction, target_count, event).1 == ImportApplyAction::Commit ==> state
            == ImportApplyState::Verify && event == ImportApplyEvent::Verified(Some(true)),
{
}

/// Placed assets that do not verify are rolled back: when the vault changed
/// while they were verified the import fails for that reason; when
/// verifying failed, for the step's own error.
pub proof fn lemma_unverified_import_rolls_back(has_transaction: bool, target_count: usize, r: Option<bool>)
    requires
        r != Some(true),
    ensures
        ({
            let (next, action) = spec_import_apply_step(
                ImportApplyState::Verify,
                has_transaction,
                target_count,
                ImportApplyEvent::Verified(r),
            );
            &&& action == ImportApplyAction::RollBack
            &&& r == Some(false) ==> next == ImportApplyState::RollingBack(ImportApplyFailure::ChangedWhileVerifying)
            &&& r is None ==> next == ImportApplyState::RollingBack(ImportApplyFailure::StepFailed)
        }),
{
}

/// A report that something went wrong never moves an import forward: it
/// ends it with a failure (discarding the staged files, rolling back the
/// placed assets, or telling that the rollback was incomplete), or is
/// ignored. Once assets may have been placed, such a report rolls back
/// rather than discards.
pub proof fn lemma_failed_reports_stop_the_import(
    state: ImportApplyState,
    has_transaction: bool,
    target_count: usize,
    event: ImportApplyEvent,
)
    requires
        spec_import_report_fails(event),
    ensures
        ({
            let action = spec_import_apply_step(state, has_transaction, target_count, event).1;
            &&& action is Ignore || action is RollBack || action is DiscardAndFail || action is FailUnrecovered
            &&& (state is Apply || state is Verify || state is CheckBeforeCommit) ==> action is RollBack
                || action is Ignore
        }),
{
}

} // verus!
