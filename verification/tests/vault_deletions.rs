use obsidian_at_home::asset_deletion::{
    asset_deletion_error, asset_deletion_start, asset_deletion_step, check_recovery_update,
    deletion_entries_unchanged, deletion_warning, remove_asset_records, AssetDeletionAction,
    AssetDeletionEvent, AssetDeletionState, DeletionCheckpoint, DeletionFailure, DeletionWarning,
    RecoverySnapshotFacts,
};
use obsidian_at_home::asset_actions::{
    attachment_action_path, check_attachment_copy_target, discard_external_asset, CopyTargetFacts,
    DiscardDecision, DiscardFacts,
};
use obsidian_at_home::asset_moves::{
    existing_image_record, relocation_error, relocation_facts_from_records, relocation_start,
    relocation_step, RecordFacts, RelocationAction, RelocationEvent, RelocationFailure, RelocationState,
};
use obsidian_at_home::assets::{RelinkOutcome, StoredVaultAsset, VaultAssetKind};
use obsidian_at_home::encoding::FileFingerprint;
use obsidian_at_home::import_paths::{
    import_item_start, import_item_step, ImportItemEvent, ImportItemState, ImportReservations,
};
use obsidian_at_home::model::WorkspaceImageNoteUpdate;
use obsidian_at_home::reconcile::{apply_relink, embedded_attachments, embedded_images, keep_records};

fn record(kind: VaultAssetKind, path: &str) -> StoredVaultAsset {
    StoredVaultAsset {
        kind,
        relative_path: path.to_owned(),
        media_type: "image/png".to_owned(),
        fingerprint: FileFingerprint { length: 4, hash: 7 },
        modified_nanos: 9,
    }
}

fn records() -> Vec<(String, StoredVaultAsset)> {
    vec![
        ("image-1".to_owned(), record(VaultAssetKind::Image, "Media/cat.png")),
        ("asset-1".to_owned(), record(VaultAssetKind::Attachment, "Media/cat.png")),
        ("image-2".to_owned(), record(VaultAssetKind::Image, "Media/dog.png")),
    ]
}

type A = AssetDeletionAction;

fn step(state: AssetDeletionState, event: AssetDeletionEvent) -> (AssetDeletionState, AssetDeletionAction) {
    asset_deletion_step(state, 1, 2, event)
}

#[test]
fn a_deletion_runs_its_steps_in_order_and_commits() {
    let (mut state, action) = asset_deletion_start();
    assert_eq!(action, A::PrepareTransaction);
    let script = [
        (AssetDeletionEvent::Step(true), A::CopyBackup),
        (AssetDeletionEvent::Check(Some(true)), A::BackupRecovery(0)),
        (AssetDeletionEvent::Step(true), A::WritePreparedManifest),
        (AssetDeletionEvent::Step(true), A::ReadRevision),
        (AssetDeletionEvent::Check(Some(true)), A::WriteApplyingManifest),
        (AssetDeletionEvent::Step(true), A::BuildState),
        (AssetDeletionEvent::Step(true), A::Checkpoint(DeletionCheckpoint::Prepared)),
        (AssetDeletionEvent::Step(true), A::ReadRevision),
        (AssetDeletionEvent::Check(Some(true)), A::WriteReference(0)),
        (AssetDeletionEvent::Step(true), A::WriteReference(1)),
        (AssetDeletionEvent::Step(true), A::Checkpoint(DeletionCheckpoint::ReferencesWritten)),
        (AssetDeletionEvent::Step(true), A::VerifyAsset),
        (AssetDeletionEvent::Check(Some(true)), A::RemoveAsset),
        (AssetDeletionEvent::Step(true), A::Checkpoint(DeletionCheckpoint::AssetRemoved)),
        (AssetDeletionEvent::Step(true), A::VerifyReferences),
        (AssetDeletionEvent::Check(Some(true)), A::CheckRecoverySnapshots),
        (AssetDeletionEvent::Step(true), A::CompareEntries),
        (AssetDeletionEvent::Check(Some(true)), A::WriteState),
        (AssetDeletionEvent::Check(Some(false)), A::Warn(DeletionWarning::MetadataNotSynchronized)),
        (AssetDeletionEvent::Step(true), A::Checkpoint(DeletionCheckpoint::Committed)),
        (AssetDeletionEvent::Step(false), A::Warn(DeletionWarning::CheckpointFailed)),
        (AssetDeletionEvent::Step(true), A::WriteCommittedManifest),
        (AssetDeletionEvent::Step(true), A::DiscardTransaction),
        (AssetDeletionEvent::Step(true), A::VerifyRevision),
        (AssetDeletionEvent::Step(true), A::Finish { revision_verified: true }),
    ];
    for (event, expected) in script {
        let (next, action) = step(state, event);
        assert_eq!(action, expected);
        state = next;
    }
    assert_eq!(state, AssetDeletionState::Done);
}

#[test]
fn a_deletion_discards_before_applying_and_rolls_back_after() {
    let (_, action) = step(AssetDeletionState::CopyBackup, AssetDeletionEvent::Check(Some(false)));
    assert_eq!(action, AssetDeletionAction::DiscardAndFail(DeletionFailure::BackupChanged));
    let (_, action) = step(AssetDeletionState::MarkApplying, AssetDeletionEvent::Step(false));
    assert_eq!(action, AssetDeletionAction::Fail(DeletionFailure::StepFailed));
    let (state, action) = step(AssetDeletionState::CompareEntries, AssetDeletionEvent::Check(Some(false)));
    assert_eq!(action, AssetDeletionAction::RollBack);
    let (_, action) = step(state, AssetDeletionEvent::RolledBack(true));
    assert_eq!(action, AssetDeletionAction::FailRolledBack(DeletionFailure::ChangedWhileSaving));
    let (state, _) = step(AssetDeletionState::WriteReference(1), AssetDeletionEvent::Step(false));
    let (_, action) = step(state, AssetDeletionEvent::RolledBack(false));
    assert_eq!(action, AssetDeletionAction::FailNotRolledBack(DeletionFailure::StepFailed));
    let (_, action) = step(AssetDeletionState::WriteCommitted, AssetDeletionEvent::Step(false));
    assert_eq!(action, AssetDeletionAction::Warn(DeletionWarning::CleanupDeferred));
    let (_, action) = step(AssetDeletionState::VerifyAsset, AssetDeletionEvent::Step(true));
    assert_eq!(action, AssetDeletionAction::Ignore);
    assert_eq!(
        asset_deletion_error(DeletionFailure::ChangedWhileSaving, "", Some(true), "", ""),
        "The vault changed while deletion was being saved. Reload it and try again. The deletion was rolled back. Reload the vault before trying again."
    );
    assert_eq!(
        asset_deletion_error(DeletionFailure::StepFailed, "disk full", Some(false), "/tmp/t", "w1"),
        "disk full The deletion could not be fully rolled back. Backups remain at /tmp/t. Reload the vault. w1"
    );
    assert_eq!(
        deletion_warning(DeletionWarning::CleanupDeferred, "busy"),
        "Deletion cleanup will be retried when the vault reopens: busy"
    );
    assert_eq!(deletion_warning(DeletionWarning::CheckpointFailed, "stop"), "stop");
}

#[test]
fn a_deletion_removes_every_record_of_the_file_and_only_those() {
    let mut all = records();
    remove_asset_records(&mut all, VaultAssetKind::Image, "Media/cat.png");
    let ids: Vec<&str> = all.iter().map(|(id, _)| id.as_str()).collect();
    assert_eq!(ids, vec!["asset-1", "image-2"]);
}

#[test]
fn only_the_deletion_may_change_revision_entries() {
    let entry = |key: &str, value: Option<u64>| (key.to_owned(), value);
    let baseline = vec![entry("D:Media", None), entry("F:Media/cat.png", Some(1)), entry("F:Note.md", Some(2)), entry("F:Other.md", Some(3))];
    let written = vec![entry("D:Media", None), entry("F:Note.md", Some(5)), entry("F:Other.md", Some(3))];
    let notes = vec!["Note.md".to_owned()];
    assert!(deletion_entries_unchanged(&baseline, &written, &notes, "Media/cat.png"));
    let other_changed = vec![entry("D:Media", None), entry("F:Note.md", Some(5)), entry("F:Other.md", Some(4))];
    assert!(!deletion_entries_unchanged(&baseline, &other_changed, &notes, "Media/cat.png"));
    assert!(!deletion_entries_unchanged(&baseline, &baseline, &notes, "Media/cat.png"));
}

#[test]
fn recovery_rewrites_check_their_snapshots() {
    let update = WorkspaceImageNoteUpdate {
        note_id: "d1".to_owned(),
        relative_path: "Old.md".to_owned(),
        expected_content: "![](Media/cat.png)".to_owned(),
        content: "gone".to_owned(),
    };
    let facts = RecoverySnapshotFacts {
        listed: true,
        snapshot: Ok(("Old.md".to_owned(), "![](Media/cat.png)".to_owned())),
        encoded_bytes: Ok(100),
        unchanged: Ok(true),
    };
    assert_eq!(check_recovery_update(&update, &facts), Ok(()));
    let changed = RecoverySnapshotFacts { unchanged: Ok(false), ..facts };
    assert_eq!(
        check_recovery_update(&update, &changed),
        Err("A recovery snapshot changed while deletion was being prepared.".to_owned())
    );
    let stale = RecoverySnapshotFacts {
        listed: true,
        snapshot: Ok(("Old.md".to_owned(), "edited".to_owned())),
        encoded_bytes: Ok(100),
        unchanged: Ok(true),
    };
    assert_eq!(
        check_recovery_update(&update, &stale),
        Err("A note in Recently Deleted changed before its reference could be updated.".to_owned())
    );
    let large = RecoverySnapshotFacts {
        listed: true,
        snapshot: Ok(("Old.md".to_owned(), "![](Media/cat.png)".to_owned())),
        encoded_bytes: Ok(63_963_137),
        unchanged: Ok(true),
    };
    assert_eq!(
        check_recovery_update(&update, &large),
        Err("An updated recovery snapshot exceeds its size limit.".to_owned())
    );
}

#[test]
fn moves_and_embeddings_read_the_records_by_key() {
    let keys: Vec<String> = vec!["media/cat.png".into(), "media/cat.png".into(), "media/dog.png".into()];
    assert_eq!(
        relocation_facts_from_records(&records(), &keys, VaultAssetKind::Image, "image-1", "media/cat.png"),
        RecordFacts { stored: Some(0), stored_points_to_source: true, tracked_assets: 3, another_record_at_source: false }
    );
    assert_eq!(
        relocation_facts_from_records(&records(), &keys, VaultAssetKind::Image, "image-9", "media/dog.png"),
        RecordFacts { stored: None, stored_points_to_source: false, tracked_assets: 3, another_record_at_source: true }
    );
    assert_eq!(
        existing_image_record(&records(), &keys, "media/dog.png"),
        Some(("image-2".to_owned(), "Media/dog.png".to_owned()))
    );
    assert_eq!(existing_image_record(&records(), &keys, "media/bird.png"), None);
}

#[test]
fn imports_take_each_path_once() {
    let mut taken = ImportReservations::new();
    assert!(taken.reserve("a.png", "a.png", "a.png"));
    assert!(!taken.reserve("b.png", "A.png", "a.png"));
    assert!(taken.reserve("b.png", "b 2.png", "b 2.png"));
    assert!(taken.is_reserved("b 2.png"));
    assert!(taken.is_mapped("b.png"));
    let images = vec!["a.png".to_owned(), "b.png".to_owned()];
    let attachments = vec!["c.pdf".to_owned()];
    assert_eq!(
        taken.unmapped_error(&images, &attachments),
        Some("A safe destination could not be reserved for c.pdf.".to_owned())
    );
    assert_eq!(taken.unmapped_error(&images, &[]), None);

    let (state, action) = import_item_start();
    assert!(action.read_source);
    let (state, action) = import_item_step(state, ImportItemEvent::SourceRead(true));
    assert_eq!(action.choose_target, Some(true));
    let (state, action) = import_item_step(state, ImportItemEvent::TargetChosen(Some(false)));
    assert!(action.reserve && action.stage && action.warn_if_renamed);
    let (state, action) = import_item_step(state, ImportItemEvent::Staged(false));
    assert!(action.warn_skipped && !action.list_file);
    assert_eq!(state, ImportItemState::Finished);
    let (state, _) = import_item_step(ImportItemState::ReadSource, ImportItemEvent::SourceRead(false));
    let (_, action) = import_item_step(state, ImportItemEvent::TargetChosen(None));
    assert!(action.warn_unreserved && action.warn_skipped && !action.reserve);
}

#[test]
fn reconciling_keeps_relinks_and_lists_the_records() {
    let kept = keep_records(records(), &[true, false, true]);
    let ids: Vec<&str> = kept.iter().map(|(id, _)| id.as_str()).collect();
    assert_eq!(ids, vec!["image-1", "image-2"]);
    let mut all = records();
    apply_relink(
        &mut all,
        "image-2",
        &RelinkOutcome::Relinked { relative_path: "Moved/dog.png".into(), media_type: "image/png".into(), modified_nanos: 12 },
    );
    assert_eq!(all[2].1.relative_path, "Moved/dog.png");
    assert_eq!(all[2].1.modified_nanos, 12);
    assert_eq!(all[0].1.relative_path, "Media/cat.png");
    apply_relink(&mut all, "image-1", &RelinkOutcome::Unresolved("missing".into()));
    assert_eq!(all[0].1.relative_path, "Media/cat.png");
    let images = embedded_images(&all);
    assert_eq!(images.len(), 2);
    assert_eq!(images[1].relative_path, "Moved/dog.png");
    let attachments = embedded_attachments(&all, &[false, true, false]);
    assert_eq!(attachments.len(), 1);
    assert_eq!(attachments[0].id, "asset-1");
    assert!(attachments[0].opening_disabled);
    assert_eq!(attachments[0].byte_length, 4);
}

#[test]
fn a_move_rolls_back_every_failure_after_the_file_moved() {
    let (state, action) = relocation_start();
    assert_eq!(action, RelocationAction::MoveFile);
    let (state, action) = relocation_step(state, VaultAssetKind::Attachment, 2, RelocationEvent::Step(true));
    assert_eq!(action, RelocationAction::WriteNote(0));
    let (failed, action) = relocation_step(state, VaultAssetKind::Attachment, 2, RelocationEvent::Step(false));
    assert_eq!(
        action,
        RelocationAction::RollBackAndFail {
            failure: RelocationFailure::ReferencesFailed,
            through_note: Some(0),
            restore_records: false
        }
    );
    assert_eq!(failed, RelocationState::Done);
    let (state, _) = relocation_step(state, VaultAssetKind::Attachment, 2, RelocationEvent::Step(true));
    let (state, action) = relocation_step(state, VaultAssetKind::Attachment, 2, RelocationEvent::Step(true));
    assert_eq!(action, RelocationAction::CheckMoved);
    let (_, action) = relocation_step(state, VaultAssetKind::Attachment, 2, RelocationEvent::Check(Some(false)));
    assert_eq!(
        action,
        RelocationAction::RollBackAndFail {
            failure: RelocationFailure::IntegrityFailed,
            through_note: None,
            restore_records: false
        }
    );
    let (state, action) = relocation_step(RelocationState::MoveFile, VaultAssetKind::Image, 0, RelocationEvent::Step(true));
    assert_eq!(action, RelocationAction::ReadModified);
    let (state, _) = relocation_step(state, VaultAssetKind::Image, 0, RelocationEvent::Step(true));
    let (state, action) = relocation_step(state, VaultAssetKind::Image, 0, RelocationEvent::Check(Some(true)));
    assert_eq!(action, RelocationAction::WriteRecord);
    let (_, action) = relocation_step(state, VaultAssetKind::Image, 0, RelocationEvent::Step(false));
    assert_eq!(
        action,
        RelocationAction::RollBackAndFail { failure: RelocationFailure::RecordFailed, through_note: None, restore_records: true }
    );
    let (_, action) = relocation_step(RelocationState::MoveFile, VaultAssetKind::Image, 0, RelocationEvent::Step(false));
    assert_eq!(action, RelocationAction::Fail(RelocationFailure::MoveFailed));
    assert_eq!(
        relocation_error(VaultAssetKind::Image, RelocationFailure::MoveFailed, "Media/dog.png", "denied", None),
        "Could not move the image to Media/dog.png: denied"
    );
    assert_eq!(
        relocation_error(
            VaultAssetKind::Attachment,
            RelocationFailure::NotesNotVerified,
            "x.pdf",
            "an attachment reference did not match the requested content",
            Some("note A.md")
        ),
        "The move could not be verified because an attachment reference did not match the requested content. The move could not be fully rolled back: note A.md"
    );
}

fn discard_facts() -> DiscardFacts {
    DiscardFacts {
        state_unreadable: false,
        revision: 4,
        stored: Some((VaultAssetKind::Attachment, "Files/a.pdf".to_owned())),
        located: Ok(()),
        referenced: Ok(false),
        matches_record: Ok(true),
    }
}

#[test]
fn unused_dropped_files_are_removed_and_referenced_ones_kept() {
    assert_eq!(discard_external_asset("asset-1", "Files/a.pdf", &discard_facts(), 4), Ok(DiscardDecision::Remove));
    let referenced = DiscardFacts { referenced: Ok(true), ..discard_facts() };
    assert_eq!(
        discard_external_asset("asset-1", "Files/a.pdf", &referenced, 4),
        Ok(DiscardDecision::Retain("The dropped file is already referenced by a saved note, so it was retained.".to_owned()))
    );
    assert_eq!(
        discard_external_asset("asset-1", "Files/a.pdf", &discard_facts(), 5),
        Ok(DiscardDecision::Retain(
            "The vault changed before the unused dropped file could be removed; the file was retained.".to_owned()
        ))
    );
    assert_eq!(
        discard_external_asset("asset-1", "Files/b.pdf", &discard_facts(), 4),
        Ok(DiscardDecision::Retain(
            "The dropped file moved before cleanup, so it was retained at its current location.".to_owned()
        ))
    );
    let changed = DiscardFacts { matches_record: Ok(false), ..discard_facts() };
    assert_eq!(
        discard_external_asset("asset-1", "Files/a.pdf", &changed, 4),
        Ok(DiscardDecision::Retain("The dropped file changed before cleanup, so the modified file was retained.".to_owned()))
    );
    let gone = DiscardFacts { stored: None, ..discard_facts() };
    assert_eq!(
        discard_external_asset("asset-1", "Files/a.pdf", &gone, 4),
        Err("The dropped file's stable record is no longer available.".to_owned())
    );
    assert!(discard_external_asset("bad id", "Files/a.pdf", &discard_facts(), 4).is_err());
}

fn copy_facts() -> CopyTargetFacts {
    CopyTargetFacts {
        is_absolute: true,
        has_file_name: true,
        has_parent: true,
        parent_is_plain_folder: Ok(true),
        parent_inside_vault: Ok(false),
        target_exists: Ok(false),
    }
}

#[test]
fn archive_copies_go_outside_the_vault_and_never_over_a_file() {
    assert_eq!(check_attachment_copy_target(&copy_facts()), Ok(()));
    let inside = CopyTargetFacts { parent_inside_vault: Ok(true), ..copy_facts() };
    assert_eq!(
        check_attachment_copy_target(&inside),
        Err("Archive copies must be saved outside the active vault to avoid untracked extracted files.".to_owned())
    );
    let taken = CopyTargetFacts { target_exists: Ok(true), ..copy_facts() };
    assert_eq!(
        check_attachment_copy_target(&taken),
        Err("A file already exists at that location. Choose a new name for the copy.".to_owned())
    );
    let relative = CopyTargetFacts { is_absolute: false, ..copy_facts() };
    assert_eq!(check_attachment_copy_target(&relative), Err("Choose an absolute location outside the vault.".to_owned()));
}

#[test]
fn attachment_actions_use_the_stable_record_when_there_is_one() {
    let stored = Some((VaultAssetKind::Attachment, "Moved/Report.pdf".to_owned()));
    assert_eq!(attachment_action_path("Files/Report.pdf", Some("asset-1"), false, &stored), Ok("Moved/Report.pdf".to_owned()));
    assert_eq!(attachment_action_path("Files/Report.pdf", Some("asset-1"), false, &None), Ok("Files/Report.pdf".to_owned()));
    assert_eq!(attachment_action_path("Files/Report.pdf", Some(""), true, &stored), Ok("Files/Report.pdf".to_owned()));
    assert_eq!(attachment_action_path("Files/Report.pdf", None, false, &stored), Ok("Files/Report.pdf".to_owned()));
    assert_eq!(
        attachment_action_path("Files/Report.pdf", Some("bad id"), false, &stored),
        Err("The attachment has an invalid stable ID.".to_owned())
    );
    assert_eq!(
        attachment_action_path("Files/Report.pdf", Some("asset-1"), true, &stored),
        Err("The attachment cannot be opened while workspace metadata is unreadable or newer than this app.".to_owned())
    );
    let image = Some((VaultAssetKind::Image, "Media/cat.png".to_owned()));
    assert_eq!(
        attachment_action_path("Files/Report.pdf", Some("asset-1"), false, &image),
        Err("The stable attachment record refers to a different file type.".to_owned())
    );
}
