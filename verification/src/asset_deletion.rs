//! Deleting an image or attachment from a vault as one transaction: the
//! checks on Recently Deleted notes that refer to it, the records it leaves,
//! whether the vault changed meanwhile, and the order of the steps, with a
//! rollback for every failure between the first write and the commit.
#![verifier::loop_isolation(false)]

use crate::assets::{StoredVaultAsset, VaultAssetKind};
use crate::model::WorkspaceImageNoteUpdate;
use crate::text::{chars_eq, chars_of, extend_chars, owned, spec_utf8_len, string_of, utf8_len_within};
use crate::workspace_paths::{as_result, view_result};
use vstd::prelude::*;

verus! {

// ---------------------------------------------------------------------------
// Recently Deleted notes that refer to the asset
// ---------------------------------------------------------------------------

/// The largest note a recovery rewrite may write: 10 MiB.
pub const MAX_RECOVERY_NOTE_BYTES: usize = 10485760;

/// The largest Recently Deleted snapshot: six notes' worth and 1 MiB more.
pub const MAX_RECOVERY_SNAPSHOT_BYTES: u64 = 63963136;

/// What was read for one Recently Deleted note that a deletion rewrites.
pub struct RecoverySnapshotFacts {
    /// The records still list the note in Recently Deleted.
    pub listed: bool,
    /// The note's path and content as its snapshot holds them, or why the
    /// snapshot could not be read.
    pub snapshot: Result<(String, String), String>,
    /// The size of the rewritten snapshot, or why it could not be encoded.
    pub encoded_bytes: Result<u64, String>,
    /// Whether the snapshot file still has the fingerprint the records
    /// give it, or why it could not be read.
    pub unchanged: Result<bool, String>,
}

pub open spec fn spec_message(r: Result<bool, String>) -> Option<Seq<char>> {
    match r {
        Ok(_) => None,
        Err(e) => Some(e@),
    }
}

/// Why a rewrite of a Recently Deleted note is refused, in order: the note
/// is no longer listed; its snapshot cannot be read; the snapshot no longer
/// holds the path and content the rewrite expects; the new content is over
/// 10 MiB; the new snapshot cannot be encoded or is over its size limit;
/// the snapshot file cannot be read or changed since it was listed.
pub open spec fn spec_recovery_update_error(update: WorkspaceImageNoteUpdate, facts: RecoverySnapshotFacts) -> Option<
    Seq<char>,
> {
    if !facts.listed {
        Some("A note in Recently Deleted is no longer available. Reload the vault."@)
    } else {
        match facts.snapshot {
            Err(e) => Some(e@),
            Ok((path, content)) => if path@ != update.relative_path@ || content@ != update.expected_content@ {
                Some("A note in Recently Deleted changed before its reference could be updated."@)
            } else if spec_utf8_len(update.content@) > MAX_RECOVERY_NOTE_BYTES {
                Some("An updated recovery note exceeds the note size limit."@)
            } else {
                match facts.encoded_bytes {
                    Err(e) => Some(e@),
                    Ok(n) => if n > MAX_RECOVERY_SNAPSHOT_BYTES {
                        Some("An updated recovery snapshot exceeds its size limit."@)
                    } else {
                        match facts.unchanged {
                            Err(e) => Some(e@),
                            Ok(same) => if !same {
                                Some("A recovery snapshot changed while deletion was being prepared."@)
                            } else {
                                None
                            },
                        }
                    },
                }
            },
        }
    }
}

/// Checks one rewrite of a Recently Deleted note that refers to a deleted
/// asset, from what was read of its snapshot.
pub fn check_recovery_update(update: &WorkspaceImageNoteUpdate, facts: &RecoverySnapshotFacts) -> (r: Result<(), String>)
    ensures
        view_result(r) == as_result(spec_recovery_update_error(*update, *facts)),
{
    if !facts.listed {
        return Err(owned("A note in Recently Deleted is no longer available. Reload the vault."));
    }
    match &facts.snapshot {
        Err(e) => return Err(owned(e.as_str())),
        Ok((path, content)) => {
            if !chars_eq(&chars_of(path.as_str()), &chars_of(update.relative_path.as_str()))
                || !chars_eq(&chars_of(content.as_str()), &chars_of(update.expected_content.as_str())) {
                return Err(owned("A note in Recently Deleted changed before its reference could be updated."));
            }
        },
    }
    if utf8_len_within(&chars_of(update.content.as_str()), MAX_RECOVERY_NOTE_BYTES).is_none() {
        return Err(owned("An updated recovery note exceeds the note size limit."));
    }
    match &facts.encoded_bytes {
        Err(e) => return Err(owned(e.as_str())),
        Ok(n) => {
            if *n > MAX_RECOVERY_SNAPSHOT_BYTES {
                return Err(owned("An updated recovery snapshot exceeds its size limit."));
            }
        },
    }
    match &facts.unchanged {
        Err(e) => Err(owned(e.as_str())),
        Ok(same) => if !*same {
            Err(owned("A recovery snapshot changed while deletion was being prepared."))
        } else {
            Ok(())
        },
    }
}

// ---------------------------------------------------------------------------
// The records a deletion leaves
// ---------------------------------------------------------------------------

/// Whether a record is the deleted asset's: same kind, same path.
pub open spec fn spec_is_deleted_record(entry: (String, StoredVaultAsset), kind: VaultAssetKind, path: Seq<char>) -> bool {
    entry.1.kind == kind && entry.1.relative_path@ == path
}

/// The records left once every record of the deleted asset is removed, in
/// their order.
pub open spec fn spec_records_without(
    records: Seq<(String, StoredVaultAsset)>,
    kind: VaultAssetKind,
    path: Seq<char>,
) -> Seq<(String, StoredVaultAsset)>
    decreases records.len(),
{
    if records.len() == 0 {
        records
    } else {
        let rest = spec_records_without(records.drop_last(), kind, path);
        if spec_is_deleted_record(records.last(), kind, path) {
            rest
        } else {
            rest.push(records.last())
        }
    }
}

/// The test a record passes to be kept: it is not of the deleted asset.
pub open spec fn spec_keeps_record(kind: VaultAssetKind, path: Seq<char>) -> spec_fn((String, StoredVaultAsset)) -> bool {
    |e: (String, StoredVaultAsset)| !(e.1.kind == kind && e.1.relative_path@ == path)
}

/// The records left are exactly those that are not of the deleted asset,
/// kept in their order: `records` filtered by the record test.
pub proof fn lemma_records_without_is_filter(
    records: Seq<(String, StoredVaultAsset)>,
    kind: VaultAssetKind,
    path: Seq<char>,
)
    ensures
        spec_records_without(records, kind, path) == records.filter(spec_keeps_record(kind, path)),
    decreases records.len(),
{
    reveal_with_fuel(Seq::filter, 1);
    if records.len() > 0 {
        lemma_records_without_is_filter(records.drop_last(), kind, path);
    }
}

/// Removes every record of the deleted asset: those of its kind at its path.
pub fn remove_asset_records(records: &mut Vec<(String, StoredVaultAsset)>, kind: VaultAssetKind, path: &str)
    ensures
        final(records)@ == spec_records_without(old(records)@, kind, path@),
        final(records)@ == old(records)@.filter(spec_keeps_record(kind, path@)),
{
    proof {
        lemma_records_without_is_filter(records@, kind, path@);
    }
    let ghost original = records@;
    assert(original.len() == records.len());
    let target = chars_of(path);
    let mut scanned: usize = 0;
    let mut i: usize = 0;
    assert(original.take(0) =~= Seq::<(String, StoredVaultAsset)>::empty());
    assert(original.skip(0) =~= original);
    while i < records.len()
        invariant
            scanned <= original.len(),
            original.len() <= usize::MAX,
            target@ == path@,
            i == spec_records_without(original.take(scanned as int), kind, path@).len(),
            records@ == spec_records_without(original.take(scanned as int), kind, path@) + original.skip(
                scanned as int,
            ),
        decreases records.len() - i,
    {
        let ghost kept = spec_records_without(original.take(scanned as int), kind, path@);
        assert(scanned < original.len());
        assert(records@[i as int] == original[scanned as int]);
        assert(original.take(scanned as int + 1).drop_last() =~= original.take(scanned as int));
        assert(original.take(scanned as int + 1).last() == original[scanned as int]);
        assert(original.skip(scanned as int).drop_first() =~= original.skip(scanned as int + 1));
        let matches = records[i].1.kind == kind && chars_eq(&chars_of(records[i].1.relative_path.as_str()), &target);
        if matches {
            records.remove(i);
            assert(records@ =~= kept + original.skip(scanned as int + 1));
        } else {
            assert(records@ =~= kept.push(original[scanned as int]) + original.skip(scanned as int + 1));
            i = i + 1;
        }
        scanned = scanned + 1;
    }
    assert(scanned == original.len()) by {
        assert(records@.len() == i + original.len() - scanned);
    }
    assert(original.take(original.len() as int) =~= original);
    assert(original.skip(original.len() as int) =~= Seq::<(String, StoredVaultAsset)>::empty());
    assert(records@ =~= spec_records_without(original, kind, path@));
}

// ---------------------------------------------------------------------------
// Whether the vault changed while the deletion was saved
// ---------------------------------------------------------------------------

/// A revision entry as the rules read it: a key and a fingerprint.
pub open spec fn spec_entry_view(e: (String, Option<u64>)) -> (Seq<char>, Option<u64>) {
    (e.0@, e.1)
}

/// The key of a file's revision entry.
pub open spec fn spec_file_key(path: Seq<char>) -> Seq<char> {
    "F:"@ + path
}

/// Whether the deletion itself changes the entry with key `key`: it is the
/// entry of a rewritten note or of the deleted file.
pub open spec fn spec_changed_by_deletion(key: Seq<char>, changed_paths: Seq<String>, removed_path: Seq<char>) -> bool {
    key == spec_file_key(removed_path) || exists|i: int| 0 <= i < changed_paths.len() && key == spec_file_key(#[trigger] changed_paths[i]@)
}

/// The entries the deletion does not change, in order.
pub open spec fn spec_other_entries(
    entries: Seq<(String, Option<u64>)>,
    changed_paths: Seq<String>,
    removed_path: Seq<char>,
) -> Seq<(Seq<char>, Option<u64>)>
    decreases entries.len(),
{
    if entries.len() == 0 {
        Seq::empty()
    } else {
        let rest = spec_other_entries(entries.drop_last(), changed_paths, removed_path);
        if spec_changed_by_deletion(entries.last().0@, changed_paths, removed_path) {
            rest
        } else {
            rest.push(spec_entry_view(entries.last()))
        }
    }
}

/// Whether nothing else changed while the deletion was saved: the entries
/// it does not touch are the same, in the same order, before and after, and
/// the deleted file has no entry any more.
pub open spec fn spec_deletion_entries_unchanged(
    baseline: Seq<(String, Option<u64>)>,
    written: Seq<(String, Option<u64>)>,
    changed_paths: Seq<String>,
    removed_path: Seq<char>,
) -> bool {
    &&& spec_other_entries(baseline, changed_paths, removed_path) == spec_other_entries(written, changed_paths, removed_path)
    &&& forall|i: int| 0 <= i < written.len() ==> (#[trigger] written[i]).0@ != spec_file_key(removed_path)
}

fn file_key(path: &str) -> (r: Vec<char>)
    ensures
        r@ == spec_file_key(path@),
{
    let mut v = chars_of("F:");
    extend_chars(&mut v, &chars_of(path));
    v
}

fn changed_by_deletion(key: &[char], changed_paths: &[String], removed_key: &[char]) -> (r: bool)
    requires
        exists|p: Seq<char>| removed_key@ == spec_file_key(p),
    ensures
        forall|p: Seq<char>| removed_key@ == spec_file_key(p) ==> r == spec_changed_by_deletion(key@, changed_paths@, p),
{
    proof {
        assert forall|p: Seq<char>, q: Seq<char>| spec_file_key(p) == spec_file_key(q) implies p == q by {
            reveal_strlit("F:");
            assert(p =~= spec_file_key(p).skip(2));
            assert(q =~= spec_file_key(q).skip(2));
        }
    }
    if chars_eq(key, removed_key) {
        return true;
    }
    let mut i: usize = 0;
    while i < changed_paths.len()
        invariant
            i <= changed_paths.len(),
            forall|k: int| 0 <= k < i ==> key@ != spec_file_key(#[trigger] changed_paths@[k]@),
        decreases changed_paths.len() - i,
    {
        if chars_eq(key, &file_key(changed_paths[i].as_str())) {
            return true;
        }
        i = i + 1;
    }
    false
}

fn other_entries(entries: &[(String, Option<u64>)], changed_paths: &[String], removed_key: &[char], removed_path: &str) -> (r: Vec<(Vec<char>, Option<u64>)>)
    requires
        removed_key@ == spec_file_key(removed_path@),
    ensures
        r@.len() == spec_other_entries(entries@, changed_paths@, removed_path@).len(),
        forall|i: int|
            0 <= i < r@.len() ==> ((#[trigger] r@[i]).0@, r@[i].1) == spec_other_entries(
                entries@,
                changed_paths@,
                removed_path@,
            )[i],
{
    let mut out: Vec<(Vec<char>, Option<u64>)> = Vec::new();
    let mut i: usize = 0;
    while i < entries.len()
        invariant
            i <= entries.len(),
            removed_key@ == spec_file_key(removed_path@),
            out@.len() == spec_other_entries(entries@.take(i as int), changed_paths@, removed_path@).len(),
            forall|k: int|
                0 <= k < out@.len() ==> ((#[trigger] out@[k]).0@, out@[k].1) == spec_other_entries(
                    entries@.take(i as int),
                    changed_paths@,
                    removed_path@,
                )[k],
        decreases entries.len() - i,
    {
        assert(entries@.take(i as int + 1).drop_last() =~= entries@.take(i as int));
        assert(entries@.take(i as int + 1).last() == entries@[i as int]);
        let key = chars_of(entries[i].0.as_str());
        if !changed_by_deletion(&key, changed_paths, removed_key) {
            out.push((key, entries[i].1));
        }
        i = i + 1;
    }
    assert(entries@.take(entries.len() as int) =~= entries@);
    out
}

/// Whether nothing else changed while the deletion of `removed_path`, with
/// the notes at `changed_paths` rewritten, was saved.
pub fn deletion_entries_unchanged(
    baseline: &[(String, Option<u64>)],
    written: &[(String, Option<u64>)],
    changed_paths: &[String],
    removed_path: &str,
) -> (r: bool)
    ensures
        r == spec_deletion_entries_unchanged(baseline@, written@, changed_paths@, removed_path@),
{
    let removed_key = file_key(removed_path);
    let a = other_entries(baseline, changed_paths, &removed_key, removed_path);
    let b = other_entries(written, changed_paths, &removed_key, removed_path);
    let ghost sa = spec_other_entries(baseline@, changed_paths@, removed_path@);
    let ghost sb = spec_other_entries(written@, changed_paths@, removed_path@);
    let mut i: usize = 0;
    while i < written.len()
        invariant
            i <= written.len(),
            removed_key@ == spec_file_key(removed_path@),
            forall|k: int| 0 <= k < i ==> (#[trigger] written@[k]).0@ != spec_file_key(removed_path@),
        decreases written.len() - i,
    {
        if chars_eq(&chars_of(written[i].0.as_str()), &removed_key) {
            return false;
        }
        i = i + 1;
    }
    if a.len() != b.len() {
        assert(sa.len() != sb.len());
        return false;
    }
    let mut j: usize = 0;
    while j < a.len()
        invariant
            a@.len() == b@.len(),
            j <= a@.len(),
            a@.len() == sa.len(),
            b@.len() == sb.len(),
            forall|k: int| 0 <= k < a@.len() ==> ((#[trigger] a@[k]).0@, a@[k].1) == sa[k],
            forall|k: int| 0 <= k < b@.len() ==> ((#[trigger] b@[k]).0@, b@[k].1) == sb[k],
            forall|k: int| 0 <= k < j ==> sa[k] == sb[k],
            forall|k: int| 0 <= k < written.len() ==> (#[trigger] written@[k]).0@ != spec_file_key(removed_path@),
        decreases a@.len() - j,
    {
        assert(((a@[j as int]).0@, a@[j as int].1) == sa[j as int]);
        assert(((b@[j as int]).0@, b@[j as int].1) == sb[j as int]);
        if !chars_eq(&a[j].0, &b[j].0) || a[j].1 != b[j].1 {
            assert(sa[j as int] != sb[j as int]);
            return false;
        }
        j = j + 1;
    }
    assert(sa =~= sb);
    true
}


// ---------------------------------------------------------------------------
// The steps of a deletion
// ---------------------------------------------------------------------------

/// Why a deletion failed.
#[derive(Debug, Clone, Copy, PartialEq, Eq, Structural)]
pub enum DeletionFailure {
    /// The file changed while its backup was copied.
    BackupChanged,
    /// The vault changed while the deletion was prepared.
    ChangedWhilePreparing,
    /// The vault changed just before the deletion began.
    ChangedBeforeBegin,
    /// The file changed while the deletion was saved.
    FileChanged,
    /// A rewritten reference changed while the deletion was saved.
    ReferenceChanged,
    /// Something else in the vault changed while the deletion was saved.
    ChangedWhileSaving,
    /// The reported step failed with its own error.
    StepFailed,
}

/// What a deletion reports without failing.
#[derive(Debug, Clone, Copy, PartialEq, Eq, Structural)]
pub enum DeletionWarning {
    /// The commit checkpoint failed with its own error.
    CheckpointFailed,
    /// The records were replaced but could not be synchronized to disk.
    MetadataNotSynchronized,
    /// The transaction could not be marked committed; it is cleaned up later.
    CleanupDeferred,
    /// The new revision could not be confirmed; the vault must be reloaded.
    ReloadNeeded,
}

/// The points at which a deletion calls its checkpoint.
#[derive(Debug, Clone, Copy, PartialEq, Eq, Structural)]
pub enum DeletionCheckpoint {
    Prepared,
    ReferencesWritten,
    AssetRemoved,
    Committed,
}

/// Where a deletion stands.
#[derive(Debug, Clone, Copy, PartialEq, Eq, Structural)]
pub enum AssetDeletionState {
    PrepareTransaction,
    CopyBackup,
    BackupRecovery(usize),
    WritePrepared,
    CheckPrepared,
    MarkApplying,
    BuildState,
    CheckpointPrepared,
    CheckBeforeBegin,
    WriteReference(usize),
    CheckpointReferences,
    VerifyAsset,
    RemoveAsset,
    CheckpointRemoved,
    VerifyReferences,
    CheckRecovery,
    CompareEntries,
    WriteState,
    WarnedSync,
    CommitCheckpoint,
    WarnedCheckpoint,
    WriteCommitted,
    Discarding,
    WarnedCleanup,
    VerifyRevision,
    WarnedReload,
    RollingBack(DeletionFailure),
    Done,
}

/// What the caller reports after performing an action.
#[derive(Debug, Clone, Copy, PartialEq, Eq, Structural)]
pub enum AssetDeletionEvent {
    /// The step succeeded or failed.
    Step(bool),
    /// A check: `Some(true)` when it holds, `Some(false)` when it does not,
    /// `None` when it could not be made. For writing the records,
    /// `Some(false)` means they were replaced but not synchronized.
    Check(Option<bool>),
    /// The rollback restored everything or not.
    RolledBack(bool),
}

/// What the caller does next.
#[derive(Debug, Clone, Copy, PartialEq, Eq, Structural)]
pub enum AssetDeletionAction {
    /// Create the transaction that records the note rewrites.
    PrepareTransaction,
    /// Copy the file into the transaction and compare its fingerprint.
    CopyBackup,
    /// Back up the snapshot of the Recently Deleted note at this position.
    BackupRecovery(usize),
    /// Record the transaction as prepared.
    WritePreparedManifest,
    /// Read the vault's revision entries and compare them with the baseline.
    ReadRevision,
    /// Record the transaction as applying.
    WriteApplyingManifest,
    /// Build the records the vault keeps afterwards.
    BuildState,
    /// Call the checkpoint.
    Checkpoint(DeletionCheckpoint),
    /// Write the rewrite at this position, if its note still holds what it expects.
    WriteReference(usize),
    /// Check that the file still has its fingerprint.
    VerifyAsset,
    /// Remove the file.
    RemoveAsset,
    /// Check that every rewritten note holds its new content.
    VerifyReferences,
    /// Read every Recently Deleted snapshot the records list.
    CheckRecoverySnapshots,
    /// Compare the vault's entries with the baseline, outside what the deletion changed.
    CompareEntries,
    /// Write the records.
    WriteState,
    /// Record the transaction as committed.
    WriteCommittedManifest,
    /// Discard the transaction's files.
    DiscardTransaction,
    /// Confirm the vault's new revision.
    VerifyRevision,
    /// Report this warning, then go on.
    Warn(DeletionWarning),
    /// Roll back what was written.
    RollBack,
    /// Fail for this reason; nothing was written.
    Fail(DeletionFailure),
    /// Discard the transaction and fail for this reason.
    DiscardAndFail(DeletionFailure),
    /// Discard the transaction and fail, saying the deletion was rolled back.
    FailRolledBack(DeletionFailure),
    /// Fail, saying the deletion could not be fully rolled back.
    FailNotRolledBack(DeletionFailure),
    /// The file is deleted; the new revision was confirmed or not.
    Finish { revision_verified: bool },
    /// The report does not fit the current step; nothing changes.
    Ignore,
}

/// The first backup of a Recently Deleted snapshot from position `i` on, or
/// the manifest once there are no more.
pub open spec fn spec_next_backup(i: int, recovery_count: usize) -> (AssetDeletionState, AssetDeletionAction) {
    if 0 <= i < recovery_count {
        (AssetDeletionState::BackupRecovery(i as usize), AssetDeletionAction::BackupRecovery(i as usize))
    } else {
        (AssetDeletionState::WritePrepared, AssetDeletionAction::WritePreparedManifest)
    }
}

/// The first note rewrite from position `i` on, or the checkpoint once
/// there are no more.
pub open spec fn spec_next_reference(i: int, reference_count: usize) -> (AssetDeletionState, AssetDeletionAction) {
    if 0 <= i < reference_count {
        (AssetDeletionState::WriteReference(i as usize), AssetDeletionAction::WriteReference(i as usize))
    } else {
        (
            AssetDeletionState::CheckpointReferences,
            AssetDeletionAction::Checkpoint(DeletionCheckpoint::ReferencesWritten),
        )
    }
}

pub open spec fn spec_discard(f: DeletionFailure) -> (AssetDeletionState, AssetDeletionAction) {
    (AssetDeletionState::Done, AssetDeletionAction::DiscardAndFail(f))
}

pub open spec fn spec_roll(f: DeletionFailure) -> (AssetDeletionState, AssetDeletionAction) {
    (AssetDeletionState::RollingBack(f), AssetDeletionAction::RollBack)
}

/// The state and action a check leads to: on to `next` when it holds, else
/// `fail` with the reason it gives (the step's own error when it could not
/// be made).
pub open spec fn spec_on_check(
    r: Option<bool>,
    mismatch: DeletionFailure,
    next: (AssetDeletionState, AssetDeletionAction),
    roll: bool,
) -> (AssetDeletionState, AssetDeletionAction) {
    match r {
        Some(true) => next,
        Some(false) => if roll { spec_roll(mismatch) } else { spec_discard(mismatch) },
        None => if roll { spec_roll(DeletionFailure::StepFailed) } else { spec_discard(DeletionFailure::StepFailed) },
    }
}

/// The next state and action of a deletion after `event`, with
/// `recovery_count` Recently Deleted snapshots to back up and
/// `reference_count` note rewrites (of notes and of snapshots) to write.
/// Until the transaction is recorded as applying, a failure discards it;
/// from the first checkpoint until the records are written, a failure rolls
/// back; once the records are written the deletion is committed, and later
/// failures only warn.
pub open spec fn spec_asset_deletion_step(
    state: AssetDeletionState,
    recovery_count: usize,
    reference_count: usize,
    event: AssetDeletionEvent,
) -> (AssetDeletionState, AssetDeletionAction) {
    match (state, event) {
        (AssetDeletionState::PrepareTransaction, AssetDeletionEvent::Step(ok)) => if ok {
            (AssetDeletionState::CopyBackup, AssetDeletionAction::CopyBackup)
        } else {
            (AssetDeletionState::Done, AssetDeletionAction::Fail(DeletionFailure::StepFailed))
        },
        (AssetDeletionState::CopyBackup, AssetDeletionEvent::Check(r)) => spec_on_check(
            r,
            DeletionFailure::BackupChanged,
            spec_next_backup(0, recovery_count),
            false,
        ),
        (AssetDeletionState::BackupRecovery(i), AssetDeletionEvent::Step(ok)) => if ok {
            spec_next_backup(i + 1, recovery_count)
        } else {
            spec_discard(DeletionFailure::StepFailed)
        },
        (AssetDeletionState::WritePrepared, AssetDeletionEvent::Step(ok)) => if ok {
            (AssetDeletionState::CheckPrepared, AssetDeletionAction::ReadRevision)
        } else {
            spec_discard(DeletionFailure::StepFailed)
        },
        (AssetDeletionState::CheckPrepared, AssetDeletionEvent::Check(r)) => spec_on_check(
            r,
            DeletionFailure::ChangedWhilePreparing,
            (AssetDeletionState::MarkApplying, AssetDeletionAction::WriteApplyingManifest),
            false,
        ),
        (AssetDeletionState::MarkApplying, AssetDeletionEvent::Step(ok)) => if ok {
            (AssetDeletionState::BuildState, AssetDeletionAction::BuildState)
        } else {
            (AssetDeletionState::Done, AssetDeletionAction::Fail(DeletionFailure::StepFailed))
        },
        (AssetDeletionState::BuildState, AssetDeletionEvent::Step(ok)) => if ok {
            (AssetDeletionState::CheckpointPrepared, AssetDeletionAction::Checkpoint(DeletionCheckpoint::Prepared))
        } else {
            (AssetDeletionState::Done, AssetDeletionAction::Fail(DeletionFailure::StepFailed))
        },
        (AssetDeletionState::CheckpointPrepared, AssetDeletionEvent::Step(ok)) => if ok {
            (AssetDeletionState::CheckBeforeBegin, AssetDeletionAction::ReadRevision)
        } else {
            spec_roll(DeletionFailure::StepFailed)
        },
        (AssetDeletionState::CheckBeforeBegin, AssetDeletionEvent::Check(r)) => spec_on_check(
            r,
            DeletionFailure::ChangedBeforeBegin,
            spec_next_reference(0, reference_count),
            true,
        ),
        (AssetDeletionState::WriteReference(i), AssetDeletionEvent::Step(ok)) => if ok {
            spec_next_reference(i + 1, reference_count)
        } else {
            spec_roll(DeletionFailure::StepFailed)
        },
        (AssetDeletionState::CheckpointReferences, AssetDeletionEvent::Step(ok)) => if ok {
            (AssetDeletionState::VerifyAsset, AssetDeletionAction::VerifyAsset)
        } else {
            spec_roll(DeletionFailure::StepFailed)
        },
        (AssetDeletionState::VerifyAsset, AssetDeletionEvent::Check(r)) => spec_on_check(
            r,
            DeletionFailure::FileChanged,
            (AssetDeletionState::RemoveAsset, AssetDeletionAction::RemoveAsset),
            true,
        ),
        (AssetDeletionState::RemoveAsset, AssetDeletionEvent::Step(ok)) => if ok {
            (AssetDeletionState::CheckpointRemoved, AssetDeletionAction::Checkpoint(DeletionCheckpoint::AssetRemoved))
        } else {
            spec_roll(DeletionFailure::StepFailed)
        },
        (AssetDeletionState::CheckpointRemoved, AssetDeletionEvent::Step(ok)) => if ok {
            (AssetDeletionState::VerifyReferences, AssetDeletionAction::VerifyReferences)
        } else {
            spec_roll(DeletionFailure::StepFailed)
        },
        (AssetDeletionState::VerifyReferences, AssetDeletionEvent::Check(r)) => spec_on_check(
            r,
            DeletionFailure::ReferenceChanged,
            (AssetDeletionState::CheckRecovery, AssetDeletionAction::CheckRecoverySnapshots),
            true,
        ),
        (AssetDeletionState::CheckRecovery, AssetDeletionEvent::Step(ok)) => if ok {
            (AssetDeletionState::CompareEntries, AssetDeletionAction::CompareEntries)
        } else {
            spec_roll(DeletionFailure::StepFailed)
        },
        (AssetDeletionState::CompareEntries, AssetDeletionEvent::Check(r)) => spec_on_check(
            r,
            DeletionFailure::ChangedWhileSaving,
            (AssetDeletionState::WriteState, AssetDeletionAction::WriteState),
            true,
        ),
        (AssetDeletionState::WriteState, AssetDeletionEvent::Check(r)) => match r {
            Some(true) => (AssetDeletionState::CommitCheckpoint, AssetDeletionAction::Checkpoint(DeletionCheckpoint::Committed)),
            Some(false) => (AssetDeletionState::WarnedSync, AssetDeletionAction::Warn(DeletionWarning::MetadataNotSynchronized)),
            None => spec_roll(DeletionFailure::StepFailed),
        },
        (AssetDeletionState::WarnedSync, AssetDeletionEvent::Step(_)) => (
            AssetDeletionState::CommitCheckpoint,
            AssetDeletionAction::Checkpoint(DeletionCheckpoint::Committed),
        ),
        (AssetDeletionState::CommitCheckpoint, AssetDeletionEvent::Step(ok)) => if ok {
            (AssetDeletionState::WriteCommitted, AssetDeletionAction::WriteCommittedManifest)
        } else {
            (AssetDeletionState::WarnedCheckpoint, AssetDeletionAction::Warn(DeletionWarning::CheckpointFailed))
        },
        (AssetDeletionState::WarnedCheckpoint, AssetDeletionEvent::Step(_)) => (
            AssetDeletionState::WriteCommitted,
            AssetDeletionAction::WriteCommittedManifest,
        ),
        (AssetDeletionState::WriteCommitted, AssetDeletionEvent::Step(ok)) => if ok {
            (AssetDeletionState::Discarding, AssetDeletionAction::DiscardTransaction)
        } else {
            (AssetDeletionState::WarnedCleanup, AssetDeletionAction::Warn(DeletionWarning::CleanupDeferred))
        },
        (AssetDeletionState::Discarding, AssetDeletionEvent::Step(_)) => (
            AssetDeletionState::VerifyRevision,
            AssetDeletionAction::VerifyRevision,
        ),
        (AssetDeletionState::WarnedCleanup, AssetDeletionEvent::Step(_)) => (
            AssetDeletionState::VerifyRevision,
            AssetDeletionAction::VerifyRevision,
        ),
        (AssetDeletionState::VerifyRevision, AssetDeletionEvent::Step(ok)) => if ok {
            (AssetDeletionState::Done, AssetDeletionAction::Finish { revision_verified: true })
        } else {
            (AssetDeletionState::WarnedReload, AssetDeletionAction::Warn(DeletionWarning::ReloadNeeded))
        },
        (AssetDeletionState::WarnedReload, AssetDeletionEvent::Step(_)) => (
            AssetDeletionState::Done,
            AssetDeletionAction::Finish { revision_verified: false },
        ),
        (AssetDeletionState::RollingBack(f), AssetDeletionEvent::RolledBack(ok)) => if ok {
            (AssetDeletionState::Done, AssetDeletionAction::FailRolledBack(f))
        } else {
            (AssetDeletionState::Done, AssetDeletionAction::FailNotRolledBack(f))
        },
        _ => (state, AssetDeletionAction::Ignore),
    }
}

/// Where a deletion starts, and what the caller does first.
pub fn asset_deletion_start() -> (r: (AssetDeletionState, AssetDeletionAction))
    ensures
        r == (AssetDeletionState::PrepareTransaction, AssetDeletionAction::PrepareTransaction),
{
    (AssetDeletionState::PrepareTransaction, AssetDeletionAction::PrepareTransaction)
}

fn next_backup(i: usize, recovery_count: usize) -> (r: (AssetDeletionState, AssetDeletionAction))
    ensures
        r == spec_next_backup(i as int, recovery_count),
{
    if i < recovery_count {
        (AssetDeletionState::BackupRecovery(i), AssetDeletionAction::BackupRecovery(i))
    } else {
        (AssetDeletionState::WritePrepared, AssetDeletionAction::WritePreparedManifest)
    }
}

fn next_reference(i: usize, reference_count: usize) -> (r: (AssetDeletionState, AssetDeletionAction))
    ensures
        r == spec_next_reference(i as int, reference_count),
{
    if i < reference_count {
        (AssetDeletionState::WriteReference(i), AssetDeletionAction::WriteReference(i))
    } else {
        (AssetDeletionState::CheckpointReferences, AssetDeletionAction::Checkpoint(DeletionCheckpoint::ReferencesWritten))
    }
}

fn on_check(
    r: Option<bool>,
    mismatch: DeletionFailure,
    next: (AssetDeletionState, AssetDeletionAction),
    roll: bool,
) -> (out: (AssetDeletionState, AssetDeletionAction))
    ensures
        out == spec_on_check(r, mismatch, next, roll),
{
    let reason = match r {
        Some(true) => return next,
        Some(false) => mismatch,
        None => DeletionFailure::StepFailed,
    };
    if roll {
        (AssetDeletionState::RollingBack(reason), AssetDeletionAction::RollBack)
    } else {
        (AssetDeletionState::Done, AssetDeletionAction::DiscardAndFail(reason))
    }
}

/// The next state and action of a deletion after the caller reports `event`.
pub fn asset_deletion_step(
    state: AssetDeletionState,
    recovery_count: usize,
    reference_count: usize,
    event: AssetDeletionEvent,
) -> (r: (AssetDeletionState, AssetDeletionAction))
    ensures
        r == spec_asset_deletion_step(state, recovery_count, reference_count, event),
{
    let discard = (AssetDeletionState::Done, AssetDeletionAction::DiscardAndFail(DeletionFailure::StepFailed));
    let fail = (AssetDeletionState::Done, AssetDeletionAction::Fail(DeletionFailure::StepFailed));
    let roll = (AssetDeletionState::RollingBack(DeletionFailure::StepFailed), AssetDeletionAction::RollBack);
    match (state, event) {
        (AssetDeletionState::PrepareTransaction, AssetDeletionEvent::Step(ok)) => if ok {
            (AssetDeletionState::CopyBackup, AssetDeletionAction::CopyBackup)
        } else {
            fail
        },
        (AssetDeletionState::CopyBackup, AssetDeletionEvent::Check(r)) => on_check(
            r,
            DeletionFailure::BackupChanged,
            next_backup(0, recovery_count),
            false,
        ),
        (AssetDeletionState::BackupRecovery(i), AssetDeletionEvent::Step(ok)) => if !ok {
            discard
        } else if i < recovery_count {
            next_backup(i + 1, recovery_count)
        } else {
            (AssetDeletionState::WritePrepared, AssetDeletionAction::WritePreparedManifest)
        },
        (AssetDeletionState::WritePrepared, AssetDeletionEvent::Step(ok)) => if ok {
            (AssetDeletionState::CheckPrepared, AssetDeletionAction::ReadRevision)
        } else {
            discard
        },
        (AssetDeletionState::CheckPrepared, AssetDeletionEvent::Check(r)) => on_check(
            r,
            DeletionFailure::ChangedWhilePreparing,
            (AssetDeletionState::MarkApplying, AssetDeletionAction::WriteApplyingManifest),
            false,
        ),
        (AssetDeletionState::MarkApplying, AssetDeletionEvent::Step(ok)) => if ok {
            (AssetDeletionState::BuildState, AssetDeletionAction::BuildState)
        } else {
            fail
        },
        (AssetDeletionState::BuildState, AssetDeletionEvent::Step(ok)) => if ok {
            (AssetDeletionState::CheckpointPrepared, AssetDeletionAction::Checkpoint(DeletionCheckpoint::Prepared))
        } else {
            fail
        },
        (AssetDeletionState::CheckpointPrepared, AssetDeletionEvent::Step(ok)) => if ok {
            (AssetDeletionState::CheckBeforeBegin, AssetDeletionAction::ReadRevision)
        } else {
            roll
        },
        (AssetDeletionState::CheckBeforeBegin, AssetDeletionEvent::Check(r)) => on_check(
            r,
            DeletionFailure::ChangedBeforeBegin,
            next_reference(0, reference_count),
            true,
        ),
        (AssetDeletionState::WriteReference(i), AssetDeletionEvent::Step(ok)) => if !ok {
            roll
        } else if i < reference_count {
            next_reference(i + 1, reference_count)
        } else {
            (AssetDeletionState::CheckpointReferences, AssetDeletionAction::Checkpoint(DeletionCheckpoint::ReferencesWritten))
        },
        (AssetDeletionState::CheckpointReferences, AssetDeletionEvent::Step(ok)) => if ok {
            (AssetDeletionState::VerifyAsset, AssetDeletionAction::VerifyAsset)
        } else {
            roll
        },
        (AssetDeletionState::VerifyAsset, AssetDeletionEvent::Check(r)) => on_check(
            r,
            DeletionFailure::FileChanged,
            (AssetDeletionState::RemoveAsset, AssetDeletionAction::RemoveAsset),
            true,
        ),
        (AssetDeletionState::RemoveAsset, AssetDeletionEvent::Step(ok)) => if ok {
            (AssetDeletionState::CheckpointRemoved, AssetDeletionAction::Checkpoint(DeletionCheckpoint::AssetRemoved))
        } else {
            roll
        },
        (AssetDeletionState::CheckpointRemoved, AssetDeletionEvent::Step(ok)) => if ok {
            (AssetDeletionState::VerifyReferences, AssetDeletionAction::VerifyReferences)
        } else {
            roll
        },
        (AssetDeletionState::VerifyReferences, AssetDeletionEvent::Check(r)) => on_check(
            r,
            DeletionFailure::ReferenceChanged,
            (AssetDeletionState::CheckRecovery, AssetDeletionAction::CheckRecoverySnapshots),
            true,
        ),
        (AssetDeletionState::CheckRecovery, AssetDeletionEvent::Step(ok)) => if ok {
            (AssetDeletionState::CompareEntries, AssetDeletionAction::CompareEntries)
        } else {
            roll
        },
        (AssetDeletionState::CompareEntries, AssetDeletionEvent::Check(r)) => on_check(
            r,
            DeletionFailure::ChangedWhileSaving,
            (AssetDeletionState::WriteState, AssetDeletionAction::WriteState),
            true,
        ),
        (AssetDeletionState::WriteState, AssetDeletionEvent::Check(r)) => match r {
            Some(true) => (AssetDeletionState::CommitCheckpoint, AssetDeletionAction::Checkpoint(DeletionCheckpoint::Committed)),
            Some(false) => (AssetDeletionState::WarnedSync, AssetDeletionAction::Warn(DeletionWarning::MetadataNotSynchronized)),
            None => roll,
        },
        (AssetDeletionState::WarnedSync, AssetDeletionEvent::Step(_)) => (
            AssetDeletionState::CommitCheckpoint,
            AssetDeletionAction::Checkpoint(DeletionCheckpoint::Committed),
        ),
        (AssetDeletionState::CommitCheckpoint, AssetDeletionEvent::Step(ok)) => if ok {
            (AssetDeletionState::WriteCommitted, AssetDeletionAction::WriteCommittedManifest)
        } else {
            (AssetDeletionState::WarnedCheckpoint, AssetDeletionAction::Warn(DeletionWarning::CheckpointFailed))
        },
        (AssetDeletionState::WarnedCheckpoint, AssetDeletionEvent::Step(_)) => (
            AssetDeletionState::WriteCommitted,
            AssetDeletionAction::WriteCommittedManifest,
        ),
        (AssetDeletionState::WriteCommitted, AssetDeletionEvent::Step(ok)) => if ok {
            (AssetDeletionState::Discarding, AssetDeletionAction::DiscardTransaction)
        } else {
            (AssetDeletionState::WarnedCleanup, AssetDeletionAction::Warn(DeletionWarning::CleanupDeferred))
        },
        (AssetDeletionState::Discarding, AssetDeletionEvent::Step(_)) => (
            AssetDeletionState::VerifyRevision,
            AssetDeletionAction::VerifyRevision,
        ),
        (AssetDeletionState::WarnedCleanup, AssetDeletionEvent::Step(_)) => (
            AssetDeletionState::VerifyRevision,
            AssetDeletionAction::VerifyRevision,
        ),
        (AssetDeletionState::VerifyRevision, AssetDeletionEvent::Step(ok)) => if ok {
            (AssetDeletionState::Done, AssetDeletionAction::Finish { revision_verified: true })
        } else {
            (AssetDeletionState::WarnedReload, AssetDeletionAction::Warn(DeletionWarning::ReloadNeeded))
        },
        (AssetDeletionState::WarnedReload, AssetDeletionEvent::Step(_)) => (
            AssetDeletionState::Done,
            AssetDeletionAction::Finish { revision_verified: false },
        ),
        (AssetDeletionState::RollingBack(f), AssetDeletionEvent::RolledBack(ok)) => if ok {
            (AssetDeletionState::Done, AssetDeletionAction::FailRolledBack(f))
        } else {
            (AssetDeletionState::Done, AssetDeletionAction::FailNotRolledBack(f))
        },
        _ => (state, AssetDeletionAction::Ignore),
    }
}

/// Whether a deletion has written its records: from then on it is committed.
pub open spec fn spec_is_committed(state: AssetDeletionState) -> bool {
    match state {
        AssetDeletionState::WarnedSync | AssetDeletionState::CommitCheckpoint | AssetDeletionState::WarnedCheckpoint
        | AssetDeletionState::WriteCommitted | AssetDeletionState::Discarding | AssetDeletionState::WarnedCleanup
        | AssetDeletionState::VerifyRevision | AssetDeletionState::WarnedReload => true,
        _ => false,
    }
}

/// Once a deletion has written its records it is committed: no later report
/// rolls it back or fails it, and it ends by finishing.
pub proof fn lemma_committed_deletion_never_rolls_back(
    state: AssetDeletionState,
    recovery_count: usize,
    reference_count: usize,
    event: AssetDeletionEvent,
)
    requires
        spec_is_committed(state),
    ensures
        ({
            let (next, action) = spec_asset_deletion_step(state, recovery_count, reference_count, event);
            &&& spec_is_committed(next) || (next == AssetDeletionState::Done && action is Finish)
            &&& !(action is RollBack)
            &&& !(action is Fail || action is DiscardAndFail || action is FailRolledBack || action is FailNotRolledBack)
        }),
{
}

/// A deletion that fails after its first checkpoint, before its records are
/// written, rolls back what it wrote.
pub proof fn lemma_failures_while_applying_roll_back(
    state: AssetDeletionState,
    recovery_count: usize,
    reference_count: usize,
    ok: bool,
)
    requires
        match state {
            AssetDeletionState::CheckpointPrepared | AssetDeletionState::WriteReference(_)
            | AssetDeletionState::CheckpointReferences | AssetDeletionState::RemoveAsset
            | AssetDeletionState::CheckpointRemoved | AssetDeletionState::CheckRecovery => true,
            _ => false,
        },
        !ok,
    ensures
        spec_asset_deletion_step(state, recovery_count, reference_count, AssetDeletionEvent::Step(ok)).1
            == AssetDeletionAction::RollBack,
{
}

/// Whether a report says the step went wrong: a failed step, or a check
/// that does not hold or could not be made.
pub open spec fn spec_deletion_report_fails(event: AssetDeletionEvent) -> bool {
    match event {
        AssetDeletionEvent::Step(ok) => !ok,
        AssetDeletionEvent::Check(r) => r != Some(true),
        AssetDeletionEvent::RolledBack(ok) => !ok,
    }
}

/// The file is removed only after the check that it still has the
/// fingerprint it had when the deletion was planned held.
pub proof fn lemma_file_removed_only_when_unchanged(
    state: AssetDeletionState,
    recovery_count: usize,
    reference_count: usize,
    event: AssetDeletionEvent,
)
    ensures
        spec_asset_deletion_step(state, recovery_count, reference_count, event).1 == AssetDeletionAction::RemoveAsset
            ==> state == AssetDeletionState::VerifyAsset && event == AssetDeletionEvent::Check(Some(true)),
{
}

/// A file that changed since the deletion was planned is not removed: the
/// deletion rolls back and fails because the file changed; a check that
/// could not be made rolls back too.
pub proof fn lemma_changed_file_rolls_back(recovery_count: usize, reference_count: usize, r: Option<bool>)
    requires
        r != Some(true),
    ensures
        ({
            let (next, action) = spec_asset_deletion_step(
                AssetDeletionState::VerifyAsset,
                recovery_count,
                reference_count,
                AssetDeletionEvent::Check(r),
            );
            &&& action == AssetDeletionAction::RollBack
            &&& r == Some(false) ==> next == AssetDeletionState::RollingBack(DeletionFailure::FileChanged)
            &&& r is None ==> next == AssetDeletionState::RollingBack(DeletionFailure::StepFailed)
        }),
{
}

/// The records are written only once the vault's other entries were found
/// unchanged, and the rewritten references verified before that.
pub proof fn lemma_records_written_only_after_checks(
    state: AssetDeletionState,
    recovery_count: usize,
    reference_count: usize,
    event: AssetDeletionEvent,
)
    ensures
        spec_asset_deletion_step(state, recovery_count, reference_count, event).1 == AssetDeletionAction::WriteState
            ==> state == AssetDeletionState::CompareEntries && event == AssetDeletionEvent::Check(Some(true)),
        spec_asset_deletion_step(state, recovery_count, reference_count, event).1
            == AssetDeletionAction::CheckRecoverySnapshots ==> state == AssetDeletionState::VerifyReferences
            && event == AssetDeletionEvent::Check(Some(true)),
{
}

/// Before the records are written, a report that something went wrong never
/// moves the deletion forward: it ends it with a failure (discarding the
/// transaction, or rolling back what was written), or is ignored.
pub proof fn lemma_failed_reports_stop_the_deletion(
    state: AssetDeletionState,
    recovery_count: usize,
    reference_count: usize,
    event: AssetDeletionEvent,
)
    requires
        spec_deletion_report_fails(event),
        !spec_is_committed(state),
        state != AssetDeletionState::WriteState,
    ensures
        ({
            let action = spec_asset_deletion_step(state, recovery_count, reference_count, event).1;
            action is Ignore || action is RollBack || action is Fail || action is DiscardAndFail
                || action is FailNotRolledBack
        }),
{
}

// ---------------------------------------------------------------------------
// Messages
// ---------------------------------------------------------------------------

/// The error a failed deletion reports: the message for its reason, or the
/// failed step's own error; then, once rolling back was needed, whether it
/// restored everything (and, when not, where the backups remain and what
/// was warned).
pub open spec fn spec_asset_deletion_error(
    failure: DeletionFailure,
    step_error: Seq<char>,
    rolled_back: Option<bool>,
    backups: Seq<char>,
    warnings: Seq<char>,
) -> Seq<char> {
    let base = match failure {
        DeletionFailure::BackupChanged => "The file changed while its deletion backup was being prepared."@,
        DeletionFailure::ChangedWhilePreparing => "The vault changed while deletion was being prepared. Reload it and try again."@,
        DeletionFailure::ChangedBeforeBegin => "The vault changed before deletion began. Reload it and try again."@,
        DeletionFailure::FileChanged => "The file changed while deletion was being saved."@,
        DeletionFailure::ReferenceChanged => "A reference changed while deletion was being saved."@,
        DeletionFailure::ChangedWhileSaving => "The vault changed while deletion was being saved. Reload it and try again."@,
        DeletionFailure::StepFailed => step_error,
    };
    match rolled_back {
        None => base,
        Some(true) => base + " The deletion was rolled back. Reload the vault before trying again."@,
        Some(false) => base + " The deletion could not be fully rolled back. Backups remain at "@ + backups
            + ". Reload the vault. "@ + warnings,
    }
}

/// The error a failed deletion reports.
pub fn asset_deletion_error(
    failure: DeletionFailure,
    step_error: &str,
    rolled_back: Option<bool>,
    backups: &str,
    warnings: &str,
) -> (r: String)
    ensures
        r@ == spec_asset_deletion_error(failure, step_error@, rolled_back, backups@, warnings@),
{
    let mut v = match failure {
        DeletionFailure::BackupChanged => chars_of("The file changed while its deletion backup was being prepared."),
        DeletionFailure::ChangedWhilePreparing => chars_of(
            "The vault changed while deletion was being prepared. Reload it and try again.",
        ),
        DeletionFailure::ChangedBeforeBegin => chars_of("The vault changed before deletion began. Reload it and try again."),
        DeletionFailure::FileChanged => chars_of("The file changed while deletion was being saved."),
        DeletionFailure::ReferenceChanged => chars_of("A reference changed while deletion was being saved."),
        DeletionFailure::ChangedWhileSaving => chars_of(
            "The vault changed while deletion was being saved. Reload it and try again.",
        ),
        DeletionFailure::StepFailed => chars_of(step_error),
    };
    match rolled_back {
        None => {},
        Some(true) => extend_chars(&mut v, &chars_of(" The deletion was rolled back. Reload the vault before trying again.")),
        Some(false) => {
            extend_chars(&mut v, &chars_of(" The deletion could not be fully rolled back. Backups remain at "));
            extend_chars(&mut v, &chars_of(backups));
            extend_chars(&mut v, &chars_of(". Reload the vault. "));
            extend_chars(&mut v, &chars_of(warnings));
        },
    }
    string_of(&v)
}

/// The warning a deletion reports without failing, with the step's error.
pub open spec fn spec_deletion_warning(warning: DeletionWarning, error: Seq<char>) -> Seq<char> {
    match warning {
        DeletionWarning::CheckpointFailed => error,
        DeletionWarning::MetadataNotSynchronized => "The deletion was saved, but its metadata could not be synchronized: "@ + error,
        DeletionWarning::CleanupDeferred => "Deletion cleanup will be retried when the vault reopens: "@ + error,
        DeletionWarning::ReloadNeeded => "The file was deleted, but the vault must be reloaded before further edits. "@ + error,
    }
}

/// The warning a deletion reports without failing.
pub fn deletion_warning(warning: DeletionWarning, error: &str) -> (r: String)
    ensures
        r@ == spec_deletion_warning(warning, error@),
{
    let mut v = match warning {
        DeletionWarning::CheckpointFailed => Vec::new(),
        DeletionWarning::MetadataNotSynchronized => chars_of("The deletion was saved, but its metadata could not be synchronized: "),
        DeletionWarning::CleanupDeferred => chars_of("Deletion cleanup will be retried when the vault reopens: "),
        DeletionWarning::ReloadNeeded => chars_of("The file was deleted, but the vault must be reloaded before further edits. "),
    };
    let ghost head = v@;
    extend_chars(&mut v, &chars_of(error));
    proof {
        if warning == DeletionWarning::CheckpointFailed {
            assert(head =~= Seq::<char>::empty());
            assert(v@ =~= error@);
        }
    }
    string_of(&v)
}

} // verus!
