use obsidian_at_home::assets::{
    attachment_record_is_current, image_record_is_current, relink_moved_assets,
    resolve_vault_asset_relative_path, retained_external_asset_result,
    workspace_asset_is_referenced, workspace_asset_matches_stored, AssetCandidate, MissingAsset,
    RelinkOutcome, StoredAssetLookup, StoredVaultAsset, VaultAssetKind,
};
use obsidian_at_home::embedding::{
    asset_capacity_error, new_asset_id, plan_attachment_embedding, plan_image_embedding,
};
use obsidian_at_home::encoding::{
    fingerprint_bytes, fresh_id, hex16, FileFingerprint, StreamingFingerprint, FNV_OFFSET_BASIS,
};
use obsidian_at_home::folders::{
    reject_home_vault, reject_nested_registered_vault, validate_attachment_source_file,
    validate_export_parent, validate_image_source_file, validate_parent_directory,
    validate_workspace_root, CanonicalFolder, EntryType, FileProbe, FolderProbe, RegisteredRoot,
};
use obsidian_at_home::fonts::{scan_system_fonts, FontFace};
use obsidian_at_home::model::{
    ImageEmbedLocation, ImageEmbedSettings, SystemFont, WorkspaceVaultItemKind,
};
use obsidian_at_home::names::is_valid_asset_id;
use obsidian_at_home::places::{
    default_folder_selection, display_relative, editor_positions_version, image_modified_nanos,
    now_millis, path_to_slash_string, registry_version, state_version,
};
use obsidian_at_home::rules::{
    attachment_destination_folder, display_vault_name, image_destination_folder,
    image_embed_location_from_name, image_embed_location_name, normalize_attachment_embed_settings,
};
use obsidian_at_home::warnings::{WarningCollector, MAX_WARNINGS};
use std::collections::BTreeMap;

const PNG: &[u8] = b"\x89PNG\r\n\x1a\nembedding-fixture";

fn folder(is_absolute: bool, entry: Result<EntryType, String>, name: Option<&str>) -> FolderProbe {
    FolderProbe {
        is_absolute,
        entry,
        canonical: Ok(CanonicalFolder { has_parent: true, file_name: name.map(str::to_owned) }),
    }
}

fn components(path: &[&str]) -> Vec<String> {
    path.iter().map(|c| (*c).to_owned()).collect()
}

fn stored(kind: VaultAssetKind, path: &str, media: &str, length: u64, modified: u64) -> StoredVaultAsset {
    StoredVaultAsset {
        kind,
        relative_path: path.to_owned(),
        media_type: media.to_owned(),
        fingerprint: FileFingerprint { length, hash: 7 },
        modified_nanos: modified,
    }
}

#[test]
fn chosen_vault_folders_are_checked_in_order() {
    let ok = folder(true, Ok(EntryType::Directory), Some("Vault"));
    assert_eq!(validate_workspace_root("  ", &ok).unwrap_err(), "Choose a vault folder.");
    assert_eq!(
        validate_workspace_root("vault", &folder(false, Ok(EntryType::Directory), None)).unwrap_err(),
        "The vault path must be absolute."
    );
    assert_eq!(
        validate_workspace_root("/v", &folder(true, Err("denied".to_owned()), None)).unwrap_err(),
        "The vault folder could not be opened: denied"
    );
    assert_eq!(
        validate_workspace_root("/v", &folder(true, Ok(EntryType::Symlink), None)).unwrap_err(),
        "The vault folder cannot be a symbolic link."
    );
    assert_eq!(
        validate_workspace_root("/v", &folder(true, Ok(EntryType::File), None)).unwrap_err(),
        "The vault path is not a folder."
    );
    let root = FolderProbe {
        is_absolute: true,
        entry: Ok(EntryType::Directory),
        canonical: Ok(CanonicalFolder { has_parent: false, file_name: None }),
    };
    assert_eq!(
        validate_workspace_root("/", &root).unwrap_err(),
        "The filesystem root cannot be used as a vault."
    );
    assert_eq!(
        validate_workspace_root("/x/.git", &folder(true, Ok(EntryType::Directory), Some(".git")))
            .unwrap_err(),
        "An app settings, trash, or Git folder cannot be opened as a vault."
    );
    assert!(validate_workspace_root("/x/Vault", &ok).is_ok());
    assert_eq!(
        validate_parent_directory("/p", &folder(true, Ok(EntryType::Symlink), None)).unwrap_err(),
        "The parent path must be a regular folder, not a symbolic link."
    );
    let unresolved = FolderProbe {
        is_absolute: true,
        entry: Ok(EntryType::Directory),
        canonical: Err("gone".to_owned()),
    };
    assert_eq!(
        validate_export_parent("/p", &unresolved).unwrap_err(),
        "The export destination could not be resolved: gone"
    );
}

#[test]
fn picked_files_are_checked_before_copying() {
    let image = FileProbe {
        is_absolute: true,
        file_name: Some("Photo.png".to_owned()),
        entry: Ok((EntryType::File, 50 * 1024 * 1024 + 1)),
        canonical: Ok(()),
    };
    assert_eq!(validate_image_source_file(" ", &image).unwrap_err(), "Choose an image file.");
    assert_eq!(
        validate_image_source_file("/x/Photo.png", &image).unwrap_err(),
        "The selected image is larger than 50 MiB."
    );
    let attachment = FileProbe {
        is_absolute: true,
        file_name: Some("Photo.png".to_owned()),
        entry: Ok((EntryType::File, 10)),
        canonical: Ok(()),
    };
    assert_eq!(
        validate_attachment_source_file("/x/Photo.png", &attachment).unwrap_err(),
        "Use image embedding for PNG, JPEG, GIF, WebP, BMP, and AVIF files."
    );
    let report = FileProbe {
        is_absolute: true,
        file_name: Some("Report.pdf".to_owned()),
        entry: Ok((EntryType::Directory, 10)),
        canonical: Ok(()),
    };
    assert_eq!(
        validate_attachment_source_file("/x/Report.pdf", &report).unwrap_err(),
        "Choose a regular file, not a folder, symbolic link, or special file."
    );
}

#[test]
fn vaults_cannot_nest_or_be_the_home_folder() {
    let home = RegisteredRoot { components: components(&["/", "home", "me"]), display: "/home/me".to_owned() };
    let vault = components(&["/", "home", "me", "vault"]);
    assert_eq!(
        reject_nested_registered_vault(&vault, &[home.clone()], false).unwrap_err(),
        "Vaults cannot be nested. Choose a folder outside /home/me."
    );
    let same = RegisteredRoot { components: vault.clone(), display: "/home/me/vault".to_owned() };
    assert!(reject_nested_registered_vault(&vault, &[same.clone()], true).is_ok());
    assert!(reject_nested_registered_vault(&vault, &[same], false).is_err());
    let sibling = RegisteredRoot { components: components(&["/", "home", "me", "other"]), display: "o".to_owned() };
    assert!(reject_nested_registered_vault(&vault, &[sibling], false).is_ok());
    let inner = RegisteredRoot { components: components(&["/", "home", "me", "vault", "in"]), display: "i".to_owned() };
    assert!(reject_nested_registered_vault(&vault, &[inner], false).is_err());

    let home_components = components(&["/", "home", "me"]);
    assert!(reject_home_vault(&Ok(Some(home_components.clone())), &home_components)
        .unwrap_err()
        .starts_with("Your home folder is too broad"));
    assert!(reject_home_vault(&Ok(Some(home_components)), &vault).is_ok());
    assert_eq!(
        reject_home_vault(&Err("no home".to_owned()), &vault).unwrap_err(),
        "Could not resolve the home folder: no home"
    );
}

#[test]
fn paths_are_written_with_forward_slashes() {
    let relative = vec![Some("Projects".to_owned()), Some("Alpha".to_owned())];
    assert_eq!(path_to_slash_string(&relative).unwrap(), "Projects/Alpha");
    let absolute = vec![Some("/".to_owned()), Some("home".to_owned()), Some("a".to_owned())];
    assert_eq!(path_to_slash_string(&absolute).unwrap(), "//home/a");
    assert_eq!(path_to_slash_string(&[Some("a".to_owned()), None]), None);
    assert_eq!(path_to_slash_string(&[]).unwrap(), "");
    assert_eq!(display_relative(Some(relative.as_slice()), "/v/Projects/Alpha"), "Projects/Alpha");
    assert_eq!(display_relative(None, "/elsewhere/x"), "/elsewhere/x");
    assert_eq!(display_relative(Some(&[None][..]), "/v/\u{FFFD}"), "/v/\u{FFFD}");
}

#[test]
fn versions_and_clock_readings() {
    assert_eq!(state_version(), 4);
    assert_eq!(editor_positions_version(), 1);
    assert_eq!(registry_version(), 1);
    assert_eq!(default_folder_selection(), "all");
    assert_eq!(now_millis(Some(5)), 5);
    assert_eq!(now_millis(None), 0);
    assert_eq!(now_millis(Some(u128::MAX)), u64::MAX);
    assert_eq!(image_modified_nanos(Some(u128::from(u64::MAX) + 1)), u64::MAX);
}

#[test]
fn moved_assets_are_relinked_only_when_unambiguous() {
    let a = FileFingerprint { length: 3, hash: 1 };
    let b = FileFingerprint { length: 4, hash: 2 };
    let missing = vec![
        MissingAsset { id: "image-a".into(), fingerprint: a, relative_path: "Old/a.png".into() },
        MissingAsset { id: "image-b".into(), fingerprint: b, relative_path: "b.png".into() },
        MissingAsset { id: "image-c".into(), fingerprint: a, relative_path: "c.png".into() },
    ];
    let candidates = vec![
        AssetCandidate { fingerprint: a, relative_path: "New/a.png".into(), media_type: "image/png".into(), modified_nanos: 7 },
        AssetCandidate { fingerprint: b, relative_path: "x.png".into(), media_type: "image/png".into(), modified_nanos: 8 },
        AssetCandidate { fingerprint: b, relative_path: "y.png".into(), media_type: "image/png".into(), modified_nanos: 9 },
    ];
    let outcomes = relink_moved_assets(VaultAssetKind::Image, &missing, &candidates);
    assert_eq!(
        outcomes,
        vec![
            RelinkOutcome::Relinked {
                relative_path: "New/a.png".into(),
                media_type: "image/png".into(),
                modified_nanos: 7
            },
            RelinkOutcome::Unresolved("Could not uniquely locate the moved embedded image b.png.".into()),
            RelinkOutcome::Unresolved("Could not find the embedded image c.png.".into()),
        ]
    );
    let lost = relink_moved_assets(VaultAssetKind::Attachment, &missing[1..2], &[]);
    assert_eq!(
        lost,
        vec![RelinkOutcome::Unresolved("Could not find the embedded attachment b.png.".into())]
    );
}

#[test]
fn stable_records_are_checked_against_the_files() {
    let image = stored(VaultAssetKind::Image, "Assets/a.PNG", "image/png", 10, 5);
    assert!(image_record_is_current(&image, 10, 5));
    assert!(!image_record_is_current(&image, 11, 5));
    assert!(!image_record_is_current(&stored(VaultAssetKind::Image, "a.png", "image/png", 10, 0), 10, 0));
    assert!(!image_record_is_current(&stored(VaultAssetKind::Image, "a.jpg", "image/png", 10, 5), 10, 5));
    let report = stored(VaultAssetKind::Attachment, "Report.pdf", "application/pdf", 3, 9);
    assert!(attachment_record_is_current(&report, 3, 9));
    assert!(!attachment_record_is_current(&report, 3, 8));
    assert!(workspace_asset_matches_stored(&FileFingerprint { length: 3, hash: 7 }, 9, &report));
    assert!(!workspace_asset_matches_stored(&FileFingerprint { length: 3, hash: 8 }, 9, &report));

    let notes = vec!["plain".to_owned(), "![a](a.png#oah-image=image-1)".to_owned()];
    assert!(workspace_asset_is_referenced(VaultAssetKind::Image, "image-1", &notes));
    assert!(!workspace_asset_is_referenced(VaultAssetKind::Attachment, "image-1", &notes));
    assert!(!workspace_asset_is_referenced(VaultAssetKind::Image, "image-2", &notes));
}

#[test]
fn stable_ids_resolve_to_recorded_paths() {
    let found = StoredAssetLookup::Found(VaultAssetKind::Image, "Moved/a.png".to_owned());
    assert_eq!(
        resolve_vault_asset_relative_path(WorkspaceVaultItemKind::Image, "a.png", None, &found).unwrap(),
        "a.png"
    );
    assert_eq!(
        resolve_vault_asset_relative_path(WorkspaceVaultItemKind::Image, "a.png", Some("image-1"), &found).unwrap(),
        "Moved/a.png"
    );
    assert_eq!(
        resolve_vault_asset_relative_path(WorkspaceVaultItemKind::Attachment, "a.png", Some("image-1"), &found)
            .unwrap_err(),
        "The stable record refers to a different vault item type."
    );
    assert_eq!(
        resolve_vault_asset_relative_path(WorkspaceVaultItemKind::Note, "a.md", Some("note-1"), &found)
            .unwrap_err(),
        "Only images and attachments use stable asset IDs."
    );
    assert_eq!(
        resolve_vault_asset_relative_path(WorkspaceVaultItemKind::Image, "a.png", Some("bad id!"), &found)
            .unwrap_err(),
        "The vault item has an invalid stable ID."
    );
    assert_eq!(
        resolve_vault_asset_relative_path(
            WorkspaceVaultItemKind::Image,
            "a.png",
            Some("image-1"),
            &StoredAssetLookup::StateMissing
        )
        .unwrap_err(),
        "The vault item no longer has a stable record."
    );
    assert!(resolve_vault_asset_relative_path(
        WorkspaceVaultItemKind::Image,
        "a.png",
        Some("image-1"),
        &StoredAssetLookup::StateUnreadable
    )
    .unwrap_err()
    .contains("unreadable"));
}

#[test]
fn retained_cleanups_report_nothing_discarded() {
    let mut paths = BTreeMap::new();
    paths.insert("note-1".to_owned(), "Note.md".to_owned());
    let mut warnings = WarningCollector::new();
    warnings.push("kept".to_owned());
    let result = retained_external_asset_result(paths.clone(), 3, 4, warnings);
    assert!(!result.discarded);
    assert_eq!(result.note_paths, paths);
    assert_eq!(result.revision, 3);
    assert_eq!(result.saved_at, 4);
    assert_eq!(result.warnings, vec!["kept"]);
}

#[test]
fn warnings_are_capped_with_a_note() {
    let mut warnings = WarningCollector::new();
    for index in 0..(MAX_WARNINGS + 5) {
        warnings.push(format!("warning {index}"));
    }
    let finished = warnings.finish();
    assert_eq!(finished.len(), MAX_WARNINGS + 1);
    assert_eq!(finished[0], "warning 0");
    assert_eq!(finished[MAX_WARNINGS - 1], format!("warning {}", MAX_WARNINGS - 1));
    assert_eq!(finished[MAX_WARNINGS], "Additional warnings were omitted.");

    let mut few = WarningCollector::new();
    few.push("one".to_owned());
    assert_eq!(few.finish(), vec!["one"]);
}

#[test]
fn font_families_are_merged_case_insensitively_and_sorted() {
    let faces = vec![
        FontFace { family: Some("Inter".into()), monospaced: false },
        FontFace { family: Some("inter".into()), monospaced: true },
        FontFace { family: Some("  Fira Code ".into()), monospaced: true },
        FontFace { family: None, monospaced: true },
        FontFace { family: Some("".into()), monospaced: false },
        FontFace { family: Some("Arial\0".into()), monospaced: false },
        FontFace { family: Some("Zed".into()), monospaced: false },
        FontFace { family: Some("arial".into()), monospaced: false },
        FontFace { family: Some("x".repeat(257)), monospaced: false },
    ];
    assert_eq!(
        scan_system_fonts(&faces),
        vec![
            SystemFont { family: "arial".into(), monospaced: false },
            SystemFont { family: "Fira Code".into(), monospaced: true },
            SystemFont { family: "Inter".into(), monospaced: true },
            SystemFont { family: "Zed".into(), monospaced: false },
        ]
    );
}

#[test]
fn embedding_plans_choose_folder_name_and_type() {
    let settings = ImageEmbedSettings {
        location: ImageEmbedLocation::SpecifiedFolder,
        folder_path: " /Assets/ ".to_owned(),
    };
    let plan = plan_image_embedding("Notes/First.md", &settings, "Photo.png", PNG).unwrap();
    assert_eq!(plan.settings.folder_path, "Assets");
    assert_eq!(plan.destination_folder, "Assets");
    assert_eq!(plan.media_type, "image/png");
    assert_eq!(plan.file_name, "Photo.png");
    assert_eq!(plan.fingerprint, fingerprint_bytes(PNG));

    let beside = ImageEmbedSettings { location: ImageEmbedLocation::NoteFolder, folder_path: "x".into() };
    let plan = plan_image_embedding("Notes/First.md", &beside, "Photo.png", PNG).unwrap();
    assert_eq!(plan.destination_folder, "Notes");
    assert_eq!(plan.settings.folder_path, "");
    assert_eq!(
        plan_image_embedding("Notes/First.md", &beside, "Photo.png", b"not an image").unwrap_err(),
        "Use a PNG, JPEG, GIF, WebP, BMP, or AVIF image."
    );

    let root = ImageEmbedSettings::default();
    assert_eq!(
        plan_attachment_embedding("Note.md", &root, None).unwrap_err(),
        "The selected attachment name is not valid Unicode."
    );
    let plan = plan_attachment_embedding("Note.md", &root, Some("Report.pdf")).unwrap();
    assert_eq!(plan.file_name, "Report.pdf");
    assert_eq!(plan.destination_folder, "");
    assert_eq!(
        asset_capacity_error(100_000, VaultAssetKind::Image).unwrap(),
        "This vault already tracks the maximum of 100000 embedded images."
    );
    assert_eq!(asset_capacity_error(99_999, VaultAssetKind::Attachment), None);
}

#[test]
fn new_asset_ids_are_valid_and_never_collide() {
    let fingerprint = fingerprint_bytes(PNG);
    let mut used = Vec::new();
    let first = new_asset_id(VaultAssetKind::Image, "Assets/Photo.png", &fingerprint, 1_000, &mut used, 1_000);
    assert!(first.starts_with("image-"));
    assert!(is_valid_asset_id(&first));
    let second = new_asset_id(VaultAssetKind::Image, "Assets/Photo.png", &fingerprint, 1_000, &mut used, 1_000);
    assert_eq!(second, format!("{first}-2"));
    assert!(is_valid_asset_id(&second));
    assert_eq!(used, vec![first.clone(), second]);
    let attachment = new_asset_id(VaultAssetKind::Attachment, "Report.pdf", &fingerprint, 1, &mut used, 1);
    assert!(attachment.starts_with("asset-"));
}

#[test]
fn fingerprints_match_whether_streamed_or_whole() {
    assert_eq!(fingerprint_bytes(b"").hash, FNV_OFFSET_BASIS);
    assert_eq!(fingerprint_bytes(b"a").hash, 0xaf63dc4c8601ec8c);
    assert_eq!(hex16(0xaf63dc4c8601ec8c).into_iter().collect::<String>(), "af63dc4c8601ec8c");
    let bytes: Vec<u8> = (0..1024u32).map(|index| (index * 37 % 251) as u8).collect();
    for chunk_size in [1usize, 37, 64, 251, 1024] {
        let mut streaming = StreamingFingerprint::new();
        for chunk in bytes.chunks(chunk_size) {
            assert!(streaming.update(chunk, 4096));
        }
        assert_eq!(streaming.finish(), fingerprint_bytes(&bytes));
    }
    let mut limited = StreamingFingerprint::new();
    assert!(limited.update(&bytes[..10], 16));
    assert!(!limited.update(&bytes[..10], 16));
    assert_eq!(limited.finish(), fingerprint_bytes(&bytes[..10]));
}

#[test]
fn fresh_ids_skip_taken_names() {
    let mut used = Vec::new();
    assert_eq!(fresh_id("image", "a", &mut used, 9), "image-af63dc4c8601ec8c");
    assert_eq!(fresh_id("image", "a", &mut used, 9), "image-af63dc4c8601ec8c-2");
    assert_eq!(fresh_id("image", "a", &mut used, 9), "image-af63dc4c8601ec8c-3");
    assert_eq!(used.len(), 3);
}

#[test]
fn vault_names_and_destinations() {
    assert_eq!(display_vault_name("  Name ", Some("folder")), "Name");
    assert_eq!(display_vault_name("  ", Some("folder")), "folder");
    assert_eq!(display_vault_name("", Some("")), "Vault");
    assert_eq!(display_vault_name("", None), "Vault");

    let beside = ImageEmbedSettings { location: ImageEmbedLocation::NoteFolder, folder_path: String::new() };
    assert_eq!(image_destination_folder("Notes/Sub/First.md", &beside).unwrap(), "Notes/Sub");
    assert_eq!(image_destination_folder("First.md", &beside).unwrap(), "");
    assert_eq!(
        image_destination_folder("First.txt", &beside).unwrap_err(),
        "Note paths must end in .md or .markdown."
    );
    let blank = ImageEmbedSettings { location: ImageEmbedLocation::SpecifiedFolder, folder_path: " / ".into() };
    assert_eq!(
        image_destination_folder("First.md", &blank).unwrap_err(),
        "Choose a vault-relative folder for embedded images."
    );
    assert_eq!(
        attachment_destination_folder("First.md", &blank).unwrap_err(),
        "Choose a vault-relative folder for embedded files."
    );
    let files = ImageEmbedSettings { location: ImageEmbedLocation::SpecifiedFolder, folder_path: "Files/".into() };
    assert_eq!(normalize_attachment_embed_settings(&files).unwrap().folder_path, "Files");
    assert_eq!(attachment_destination_folder("A/First.md", &files).unwrap(), "Files");

    assert_eq!(image_embed_location_name(ImageEmbedLocation::NoteFolder), "note-folder");
    assert_eq!(
        image_embed_location_from_name("specified-folder-mirrored"),
        Some(ImageEmbedLocation::SpecifiedFolder)
    );
    assert_eq!(image_embed_location_from_name("vault-root"), Some(ImageEmbedLocation::VaultRoot));
    assert_eq!(image_embed_location_from_name("other"), None);
}
