use obsidian_at_home::asset_moves::{
    plan_asset_deletion, plan_asset_relocation, recheck_asset_relocation, relocation_failure,
    set_asset_record, validate_asset_note_updates, DeletionFacts, RelocationFacts,
};
use obsidian_at_home::assets::{StoredVaultAsset, VaultAssetKind};
use obsidian_at_home::embedding::{decide_image_embedding, ImageEmbedDecision, ImageEmbedFacts};
use obsidian_at_home::encoding::{fingerprint_bytes, FileFingerprint};
use obsidian_at_home::frontmatter::{
    escape_yaml_double_quoted, parse_basic_frontmatter, parse_yaml_scalar, render_note_markdown,
};
use obsidian_at_home::import_apply::{
    import_apply_error, import_apply_start, import_apply_step, ImportApplyAction, ImportApplyEvent,
    ImportApplyFailure, ImportApplyState,
};
use obsidian_at_home::import_paths::{
    asset_import_limit, check_asset_import_paths, renamed_import_warning, skipped_import_warning,
    unreserved_import_warning,
};
use obsidian_at_home::model::WorkspaceImageNoteUpdate;
use obsidian_at_home::reconcile::{
    attachment_record_status, image_record_status, is_relink_candidate, refresh_attachment_record,
    refresh_image_record, screen_asset_records, RecordStatus,
};
use obsidian_at_home::vault_import::{enabled_snippet_names, JsonValue};
use obsidian_at_home::warnings::WarningCollector;

const PNG: &[u8] = &[
    0x89, b'P', b'N', b'G', 0x0d, 0x0a, 0x1a, 0x0a, 0, 0, 0, 13, b'I', b'H', b'D', b'R', 0, 0, 0, 1, 0, 0, 0, 1,
];

fn update(id: &str, path: &str, content: &str) -> WorkspaceImageNoteUpdate {
    WorkspaceImageNoteUpdate {
        note_id: id.to_owned(),
        relative_path: path.to_owned(),
        expected_content: "old".to_owned(),
        content: content.to_owned(),
    }
}

fn notes() -> Vec<(String, String)> {
    vec![("n1".to_owned(), "A.md".to_owned()), ("n2".to_owned(), "Folder/B.md".to_owned())]
}

fn record(kind: VaultAssetKind, path: &str) -> StoredVaultAsset {
    StoredVaultAsset {
        kind,
        relative_path: path.to_owned(),
        media_type: "image/png".to_owned(),
        fingerprint: FileFingerprint { length: 4, hash: 7 },
        modified_nanos: 9,
    }
}

fn facts() -> RelocationFacts {
    RelocationFacts {
        state_unreadable: false,
        revision: 5,
        source: Ok(()),
        destination: Ok(()),
        case_only_rename: false,
        target_exists: false,
        stored: Some(record(VaultAssetKind::Image, "Media/cat.png")),
        stored_points_to_source: true,
        tracked_assets: 1,
        another_record_at_source: false,
        note_paths: notes(),
    }
}

#[test]
fn note_rewrites_for_a_move_are_checked_in_order() {
    assert_eq!(validate_asset_note_updates(&notes(), &[update("n1", "A.md", "new")], "image"), Ok(()));
    assert_eq!(
        validate_asset_note_updates(&notes(), &[update("n1", "Other.md", "new")], "image"),
        Err("A note path changed before its image reference could be updated.".to_owned())
    );
    assert_eq!(
        validate_asset_note_updates(
            &notes(),
            &[update("n1", "A.md", "x"), update("n1", "A.md", "y")],
            "attachment"
        ),
        Err("The attachment move contains a duplicate note update.".to_owned())
    );
    let big = "x".repeat(10 * 1024 * 1024 + 1);
    assert_eq!(
        validate_asset_note_updates(&notes(), &[update("n2", "Folder/B.md", &big)], "image"),
        Err("Folder/B.md is larger than 10 MiB and cannot be updated.".to_owned())
    );
    assert!(validate_asset_note_updates(&notes(), &[update("n1", "A.txt", "x")], "image").is_err());
}

#[test]
fn moves_are_refused_for_the_first_failing_reason() {
    let ok = plan_asset_relocation(VaultAssetKind::Image, "Media/cat.png", "Media/dog.png", "image-1", &facts(), &[], 5);
    assert_eq!(ok, Ok(()));
    assert_eq!(
        plan_asset_relocation(VaultAssetKind::Image, "Media/cat.png", "Media/cat.png", "image-1", &facts(), &[], 5),
        Err("The image is already at that path.".to_owned())
    );
    assert_eq!(
        plan_asset_relocation(VaultAssetKind::Image, "Media/cat.png", "Media/dog.png", "image-1", &facts(), &[], 6),
        Err("The vault changed outside Obsidian At Home. Reload it before moving the image.".to_owned())
    );
    let mut taken = facts();
    taken.target_exists = true;
    assert_eq!(
        plan_asset_relocation(VaultAssetKind::Image, "Media/cat.png", "Media/dog.png", "image-1", &taken, &[], 5),
        Err("A file named Media/dog.png already exists.".to_owned())
    );
    taken.case_only_rename = true;
    assert_eq!(
        plan_asset_relocation(VaultAssetKind::Image, "Media/cat.png", "Media/Cat.png", "image-1", &taken, &[], 5),
        Ok(())
    );
    let mut wrong_kind = facts();
    wrong_kind.stored = Some(record(VaultAssetKind::Attachment, "Media/cat.png"));
    assert_eq!(
        plan_asset_relocation(VaultAssetKind::Image, "Media/cat.png", "Media/dog.png", "image-1", &wrong_kind, &[], 5),
        Err("The stable image record refers to a different file type.".to_owned())
    );
    let mut untracked = facts();
    untracked.stored = None;
    untracked.tracked_assets = 100_000;
    assert_eq!(
        plan_asset_relocation(VaultAssetKind::Attachment, "Files/a.pdf", "Files/b.pdf", "asset-1", &untracked, &[], 5),
        Err("This vault already tracks the maximum of 100000 embedded assets.".to_owned())
    );
    assert_eq!(
        recheck_asset_relocation(VaultAssetKind::Attachment, 5, 5, false),
        Err("A note changed before the attachment could be moved. Reload the vault and try again.".to_owned())
    );
    assert_eq!(recheck_asset_relocation(VaultAssetKind::Image, 5, 5, true), Ok(()));
    assert_eq!(
        relocation_failure("Could not update image references: ", "disk full", Some("note A.md")),
        "Could not update image references: disk full The move could not be fully rolled back: note A.md"
    );
}

#[test]
fn a_moved_asset_keeps_its_record_under_its_id() {
    let mut records = vec![
        ("image-1".to_owned(), record(VaultAssetKind::Image, "Media/cat.png")),
        ("image-2".to_owned(), record(VaultAssetKind::Image, "Media/dog.png")),
    ];
    set_asset_record(&mut records, "image-1", record(VaultAssetKind::Image, "Media/moved.png"));
    assert_eq!(records.len(), 2);
    assert_eq!(records[0].1.relative_path, "Media/moved.png");
    assert_eq!(records[1].1.relative_path, "Media/dog.png");
    set_asset_record(&mut records, "image-3", record(VaultAssetKind::Image, "Media/new.png"));
    assert_eq!(records.len(), 3);
}

#[test]
fn deletions_check_the_file_and_its_rewrites_first() {
    let facts = DeletionFacts {
        state_unreadable: false,
        revision: 3,
        located: Ok("Media/cat.png".to_owned()),
        fingerprint: Ok(()),
        note_paths: notes(),
    };
    assert_eq!(plan_asset_deletion(VaultAssetKind::Image, "Media/cat.png", &facts, &[], &[], 3), Ok(()));
    let moved = DeletionFacts { located: Ok("Media/other.png".to_owned()), ..facts };
    assert_eq!(
        plan_asset_deletion(VaultAssetKind::Image, "Media/cat.png", &moved, &[], &[], 3),
        Err("The file moved. Reload the vault before deleting it.".to_owned())
    );
    let facts = DeletionFacts { located: Ok("Media/cat.png".to_owned()), ..moved };
    assert_eq!(
        plan_asset_deletion(
            VaultAssetKind::Image,
            "Media/cat.png",
            &facts,
            &[],
            &[update("d1", "Old.md", "x"), update("d1", "Old.md", "y")],
            3
        ),
        Err("The deletion contains a duplicate recovery update.".to_owned())
    );
    assert_eq!(
        plan_asset_deletion(VaultAssetKind::Image, "Media/cat.png", &facts, &[update("n9", "Z.md", "x")], &[], 3),
        Err("A note path changed before its file deletion reference could be updated.".to_owned())
    );
}

#[test]
fn embedding_reuses_a_recorded_image() {
    let facts = ImageEmbedFacts {
        state_unreadable: false,
        revision: 2,
        existing_record: Some(("image-1".to_owned(), "Media/cat.png".to_owned())),
        stored_path_exists: true,
        tracked_assets: 1,
    };
    assert_eq!(
        decide_image_embedding(Some("Media/cat.png"), &facts, 2),
        Ok(ImageEmbedDecision::RefreshRecord { id: "image-1".to_owned(), relative_path: "Media/cat.png".to_owned() })
    );
    assert_eq!(
        decide_image_embedding(Some("Media/Cat.png"), &facts, 2),
        Err("The vault contains image paths that differ only by letter case near Media/Cat.png.".to_owned())
    );
    let fresh = ImageEmbedFacts { existing_record: None, ..facts };
    assert_eq!(
        decide_image_embedding(Some("Media/cat.png"), &fresh, 2),
        Ok(ImageEmbedDecision::RecordExisting { relative_path: "Media/cat.png".to_owned() })
    );
    assert_eq!(decide_image_embedding(Some("notes.txt"), &fresh, 2), Ok(ImageEmbedDecision::WriteNew));
    assert_eq!(
        decide_image_embedding(None, &fresh, 1),
        Err("The vault changed outside Obsidian At Home. Reload it before embedding the image.".to_owned())
    );
}

#[test]
fn records_are_screened_refreshed_and_relinked() {
    let records = vec![
        ("image-1".to_owned(), record(VaultAssetKind::Image, "Media/cat.png")),
        ("bad id".to_owned(), record(VaultAssetKind::Image, "Media/dog.png")),
        ("image-3".to_owned(), record(VaultAssetKind::Image, "Media/._cat.png")),
    ];
    let (keep, warnings) = screen_asset_records(&records, &[false, false, true]);
    assert_eq!(keep, vec![true, false, false]);
    assert_eq!(warnings, vec!["Ignored an invalid embedded image record.".to_owned()]);

    let stored = record(VaultAssetKind::Image, "Media/cat.png");
    assert_eq!(image_record_status(&stored, Some((4, 9))), RecordStatus::Current);
    assert_eq!(image_record_status(&stored, Some((4, 10))), RecordStatus::Reread);
    assert_eq!(image_record_status(&stored, None), RecordStatus::Missing);
    assert_eq!(
        attachment_record_status(&record(VaultAssetKind::Attachment, "a.pdf"), Some((5 * 1024 * 1024 * 1024, 9))),
        RecordStatus::Missing
    );
    let refreshed = refresh_image_record(&stored, PNG, 11).expect("a PNG should refresh");
    assert_eq!(refreshed.fingerprint, fingerprint_bytes(PNG));
    assert_eq!(refreshed.modified_nanos, 11);
    assert_eq!(refreshed.relative_path, "Media/cat.png");
    assert!(refresh_image_record(&stored, b"nope", 11).is_none());
    let attachment = refresh_attachment_record(
        &record(VaultAssetKind::Attachment, "Files/r.pdf"),
        FileFingerprint { length: 1, hash: 2 },
        3,
    );
    assert_eq!(attachment.media_type, "application/pdf");

    assert!(is_relink_candidate(VaultAssetKind::Image, Some("New/cat.png"), false, 4, &[4, 8]));
    assert!(!is_relink_candidate(VaultAssetKind::Image, Some("New/cat.png"), true, 4, &[4]));
    assert!(!is_relink_candidate(VaultAssetKind::Image, Some("New/cat.png"), false, 5, &[4]));
    assert!(!is_relink_candidate(VaultAssetKind::Image, Some("New/cat.txt"), false, 4, &[4]));
    assert!(!is_relink_candidate(VaultAssetKind::Attachment, None, false, 4, &[4]));
}

#[test]
fn asset_imports_check_limits_paths_and_report_renames() {
    assert_eq!(asset_import_limit(60_000, 40_000), Ok(()));
    assert_eq!(
        asset_import_limit(60_000, 40_001),
        Err("Only 100000 asset files can be imported at once.".to_owned())
    );
    let images = vec!["Media/a.png".to_owned(), "Media/a.png".to_owned()];
    let attachments = vec!["Files/a.pdf".to_owned(), "Files/a.pdf".to_owned()];
    assert_eq!(check_asset_import_paths(&images[..1], &attachments[..1]), Ok(()));
    assert_eq!(
        check_asset_import_paths(&images, &attachments[..1]),
        Err("The asset import contains a duplicate path near Media/a.png.".to_owned())
    );
    assert_eq!(
        check_asset_import_paths(&images[..1], &attachments),
        Err("The asset import contains a duplicate path near Files/a.pdf.".to_owned())
    );
    assert!(check_asset_import_paths(&attachments[..1], &[]).is_err());
    assert_eq!(skipped_import_warning("a.png", "gone"), "Skipped a.png: gone");
    assert_eq!(unreserved_import_warning("a.png", "full"), "Could not reserve a safe path for a.png: full");
    assert_eq!(renamed_import_warning("a.png", "a.png"), None);
    assert_eq!(
        renamed_import_warning("a.png", "a 2.png"),
        Some("Imported a.png as a 2.png to avoid an existing vault path.".to_owned())
    );
}

#[test]
fn committing_an_import_rolls_back_after_the_first_placement() {
    let (state, action) = import_apply_start();
    assert_eq!(action, ImportApplyAction::ReadRevision);
    let (state, action) = import_apply_step(state, true, 2, ImportApplyEvent::Revision(Some(true)));
    assert_eq!(action, ImportApplyAction::PrepareTransaction);
    let (state, action) = import_apply_step(state, true, 2, ImportApplyEvent::Step(true));
    assert_eq!(action, ImportApplyAction::ReadRevision);
    let (state, action) = import_apply_step(state, true, 2, ImportApplyEvent::Revision(Some(true)));
    assert_eq!(action, ImportApplyAction::MarkApplying);
    let (state, action) = import_apply_step(state, true, 2, ImportApplyEvent::Step(true));
    assert_eq!(action, ImportApplyAction::ReadRevision);
    let (state, action) = import_apply_step(state, true, 2, ImportApplyEvent::Revision(Some(true)));
    assert_eq!(action, ImportApplyAction::ApplyTarget(0));
    let (applied, action) = import_apply_step(state, true, 2, ImportApplyEvent::Step(true));
    assert_eq!(action, ImportApplyAction::ApplyTarget(1));
    let (state, action) = import_apply_step(applied, true, 2, ImportApplyEvent::Step(true));
    assert_eq!(action, ImportApplyAction::Verify);
    let (_, action) = import_apply_step(state, true, 2, ImportApplyEvent::Verified(Some(true)));
    assert_eq!(action, ImportApplyAction::Commit);

    let (state, action) = import_apply_step(applied, true, 2, ImportApplyEvent::Step(false));
    assert_eq!(action, ImportApplyAction::RollBack);
    assert_eq!(state, ImportApplyState::RollingBack(ImportApplyFailure::StepFailed));
    let (_, action) = import_apply_step(state, true, 2, ImportApplyEvent::RolledBack(false));
    assert_eq!(action, ImportApplyAction::FailUnrecovered(ImportApplyFailure::StepFailed));
    assert_eq!(
        import_apply_error(ImportApplyFailure::StepFailed, "disk full", false),
        "disk full The interrupted asset import could not be fully rolled back. Reopen the vault before editing again."
    );
    let (_, action) =
        import_apply_step(ImportApplyState::CheckBaseline, false, 0, ImportApplyEvent::Revision(Some(true)));
    assert_eq!(action, ImportApplyAction::FinishUnchanged);
    let (_, action) =
        import_apply_step(ImportApplyState::CheckBaseline, true, 2, ImportApplyEvent::Revision(Some(false)));
    assert_eq!(action, ImportApplyAction::DiscardAndFail(ImportApplyFailure::ChangedWhilePreparing));
}

#[test]
fn warnings_keep_the_first_two_hundred_and_note_the_rest() {
    let mut collector = WarningCollector::new();
    for index in 0..201 {
        collector.push(format!("w{index}"));
    }
    let finished = collector.finish();
    assert_eq!(finished.len(), 201);
    assert_eq!(finished[0], "w0");
    assert_eq!(finished[199], "w199");
    assert_eq!(finished[200], "Additional warnings were omitted.");
}

#[test]
fn quoted_yaml_reads_back_as_written() {
    for text in ["plain", "a \"quote\" and \\ slash", "two\nlines\tand\rreturns", "  spaced  ", ""] {
        let quoted = format!("\"{}\"", escape_yaml_double_quoted(text));
        assert_eq!(parse_yaml_scalar(&quoted), text);
    }
}

#[test]
fn enabled_snippets_are_the_strings_in_their_list() {
    let doc = JsonValue::Object(vec![
        ("theme".to_owned(), JsonValue::Str("dark".to_owned())),
        (
            "enabledCssSnippets".to_owned(),
            JsonValue::Array(vec![
                JsonValue::Str("focus".to_owned()),
                JsonValue::Number,
                JsonValue::Str("wide".to_owned()),
            ]),
        ),
    ]);
    assert_eq!(enabled_snippet_names(&doc), vec!["focus".to_owned(), "wide".to_owned()]);
    assert!(enabled_snippet_names(&JsonValue::Array(vec![])).is_empty());
    let not_a_list = JsonValue::Object(vec![("enabledCssSnippets".to_owned(), JsonValue::Bool(true))]);
    assert!(enabled_snippet_names(&not_a_list).is_empty());
}

#[test]
fn records_are_listed_by_key_keeping_equal_keys_in_order() {
    let keys: Vec<String> = ["b.md", "a.md", "B.md", "a.md", "é.md", ""].iter().map(|k| k.to_string()).collect();
    let order = obsidian_at_home::sorting::stable_order(&keys);
    assert_eq!(order, vec![5, 2, 1, 3, 0, 4]);
    let mut expected: Vec<usize> = (0..keys.len()).collect();
    expected.sort_by(|left, right| keys[*left].cmp(&keys[*right]));
    assert_eq!(order, expected);
}

#[test]
fn a_rendered_note_reads_back_its_title_and_tags() {
    let tags = vec!["  work ".to_owned(), "".to_owned(), "work".to_owned(), "say \"hi\"\tnow".to_owned()];
    let rendered = render_note_markdown("  A \\ title\n", &tags, "Body");
    let parsed = parse_basic_frontmatter(&rendered);
    assert_eq!(parsed.title, Some("A \\ title".to_owned()));
    assert_eq!(parsed.tags, vec!["work".to_owned(), "say \"hi\"\tnow".to_owned()]);
    let untitled = parse_basic_frontmatter(&render_note_markdown("   ", &[], ""));
    assert_eq!(untitled.title, Some("Untitled".to_owned()));
    assert!(untitled.tags.is_empty());
}
