use obsidian_at_home::frontmatter::render_note_markdown;
use obsidian_at_home::model::{ExportNote, ExportTemplate, VaultSnippet};
use obsidian_at_home::vault_export::{
    export_asset_limit_warning, export_dir_name, plan_export_note, plan_export_snippet, plan_export_template,
    unique_text_file_name,
};
use obsidian_at_home::vault_import::{
    appearance_file_warning, import_asset_limit_warning, import_entry_kind, import_note_content_step,
    import_note_limit_warning, import_note_size_step, import_vault_name, imported_note,
    inspect_portable_attachment, inspect_portable_image, inspect_snippet_entry, vault_snippet,
    ImportEntryKind, ImportStep, SnippetStep,
};
use obsidian_at_home::walk::{
    directory_contains_nested_vault, is_nested_vault_directory, should_visit_note_entry,
    should_visit_revision_entry, should_visit_workspace_entry, WalkEntry,
};

const MIB: u64 = 1024 * 1024;

fn entry(depth: usize, is_dir: bool, name: &str, components: &[&str]) -> WalkEntry {
    WalkEntry {
        depth,
        is_symlink: false,
        is_dir,
        name: name.to_owned(),
        path_components: components.iter().map(|c| (*c).to_owned()).collect(),
    }
}

#[test]
fn imported_vaults_are_named_after_their_folder() {
    assert_eq!(import_vault_name(Some("My Vault")), "My Vault");
    assert_eq!(import_vault_name(Some("")), "Imported vault");
    assert_eq!(import_vault_name(None), "Imported vault");
}

#[test]
fn import_sorts_files_by_kind() {
    assert_eq!(import_entry_kind("Projects/Alpha/Board.canvas"), ImportEntryKind::Canvas);
    assert_eq!(import_entry_kind("Assets/Sketch.CANVAS"), ImportEntryKind::Canvas);
    assert_eq!(import_entry_kind("Assets/diagram.PNG"), ImportEntryKind::Image);
    assert_eq!(import_entry_kind("Projects/Alpha/Plan.md"), ImportEntryKind::Note);
    assert_eq!(import_entry_kind("Ideas.markdown"), ImportEntryKind::Note);
    assert_eq!(import_entry_kind("Assets/report.pdf"), ImportEntryKind::Attachment);
}

#[test]
fn imported_notes_keep_their_content_and_take_frontmatter_titles() {
    let content = "---\ntitle: Alpha plan\ntags: [work]\n---\n![Diagram](../../Assets/diagram.png)";
    let note = imported_note("Projects/Alpha/Plan.md".to_owned(), content.to_owned());
    assert_eq!(note.title, "Alpha plan");
    assert_eq!(note.folder_path, "Projects/Alpha");
    assert_eq!(note.relative_path, "Projects/Alpha/Plan.md");
    assert_eq!(note.tags, vec!["work"]);
    assert_eq!(note.content, content);

    let blank = imported_note(
        "Ideas/Blank title.md".to_owned(),
        "---\ntitle: \"  \"\n---\nbody".to_owned(),
    );
    assert_eq!(blank.title, "Blank title");
    let plain = imported_note("Top.md".to_owned(), "no frontmatter".to_owned());
    assert_eq!(plain.title, "Top");
    assert_eq!(plain.folder_path, "");
    assert!(plain.tags.is_empty());
}

#[test]
fn import_limits_decide_when_to_skip_or_stop() {
    assert_eq!(import_asset_limit_warning(10, 10), None);
    assert_eq!(
        import_asset_limit_warning(99_999, 1).unwrap(),
        "Only the first 100000 asset files can be imported."
    );
    assert_eq!(import_note_limit_warning(99_999), None);
    assert_eq!(
        import_note_limit_warning(100_000).unwrap(),
        "Stopped after 100000 notes to stay within the import limit."
    );
    assert_eq!(
        import_note_size_step(0, "big.md", 10 * MIB + 1),
        ImportStep::Skip("Skipped big.md because it is larger than 10 MiB.".to_owned())
    );
    assert_eq!(
        import_note_size_step(512 * MIB - 5, "n.md", 10),
        ImportStep::Stop(
            "Stopped after reading 512 MiB of notes to stay within the import limit.".to_owned()
        )
    );
    assert_eq!(import_note_size_step(0, "n.md", 10), ImportStep::Proceed);
    assert_eq!(import_note_content_step(5, 10), Ok(15));
    assert!(import_note_content_step(512 * MIB - 5, 10).is_err());
}

#[test]
fn portable_assets_are_inspected_before_import() {
    let image = inspect_portable_image(
        Some("Assets/diagram.png"),
        &Ok(100),
        "Assets/diagram.png",
        "/vault/Assets/diagram.png",
    );
    assert_eq!(image.unwrap().relative_path, "Assets/diagram.png");
    assert_eq!(
        inspect_portable_image(Some("Assets/diagram.png"), &Ok(0), "Assets/diagram.png", "/v")
            .unwrap_err(),
        "Skipped Assets/diagram.png because images must be between 1 byte and 50 MiB."
    );
    assert_eq!(
        inspect_portable_image(
            Some("Assets/diagram.png"),
            &Err("boom".to_owned()),
            "Assets/diagram.png",
            "/v"
        )
        .unwrap_err(),
        "Skipped Assets/diagram.png because its metadata could not be read: boom"
    );
    assert_eq!(
        inspect_portable_image(None, &Ok(5), "x", "/vault/x.png").unwrap_err(),
        "Skipped an image whose path is not valid Unicode: /vault/x.png"
    );
    assert_eq!(
        inspect_portable_image(Some(".obsidian/x.png"), &Ok(5), "x", "/v").unwrap_err(),
        "Skipped .obsidian/x.png because its image path is unsafe: App settings, Obsidian settings, and trash folders are reserved"
    );
    assert_eq!(
        inspect_portable_attachment(Some("Assets/report.pdf"), &Ok(5), "r", "/v")
            .unwrap()
            .relative_path,
        "Assets/report.pdf"
    );
    assert_eq!(
        inspect_portable_attachment(Some("Board.canvas"), &Ok(5), "b", "/v").unwrap_err(),
        "Skipped Board.canvas because its attachment path is unsafe: Canvas files are not attachments"
    );
    assert_eq!(
        inspect_portable_attachment(Some("a.bin"), &Ok(4 * 1024 * MIB + 1), "a.bin", "/v")
            .unwrap_err(),
        "Skipped a.bin because attachments must be no larger than 4 GiB."
    );
}

#[test]
fn snippets_are_read_by_stem_and_enabled_by_name() {
    assert_eq!(
        inspect_snippet_entry(Some("pretty.css"), "pretty.css", true, 20, "/v/pretty.css"),
        SnippetStep::Read("pretty".to_owned())
    );
    assert_eq!(
        inspect_snippet_entry(Some("Wide.CSS"), "Wide.CSS", true, 20, "/v/Wide.CSS"),
        SnippetStep::Read("Wide".to_owned())
    );
    assert_eq!(
        inspect_snippet_entry(Some("notes.txt"), "notes.txt", true, 20, "/v/notes.txt"),
        SnippetStep::Ignore
    );
    assert_eq!(
        inspect_snippet_entry(Some("pretty.css"), "pretty.css", false, 20, "/v/pretty.css"),
        SnippetStep::Ignore
    );
    assert_eq!(
        inspect_snippet_entry(Some("pretty.css"), "pretty.css", true, 5 * MIB + 1, "/v"),
        SnippetStep::Skip("Skipped CSS snippet pretty.css because it is larger than 5 MiB.".to_owned())
    );
    assert_eq!(
        inspect_snippet_entry(None, "\u{FFFD}.css", true, 20, "/v/bad.css"),
        SnippetStep::Skip("Skipped a CSS snippet with an invalid name: /v/bad.css".to_owned())
    );
    let enabled = vec!["pretty".to_owned()];
    assert!(vault_snippet("pretty".into(), ".a{}".into(), "pretty.css", &enabled).enabled);
    let by_file = vec!["pretty.css".to_owned()];
    assert!(vault_snippet("pretty".into(), ".a{}".into(), "pretty.css", &by_file).enabled);
    assert!(!vault_snippet("pretty".into(), ".a{}".into(), "pretty.css", &[]).enabled);
}

#[test]
fn exports_never_reuse_a_name() {
    assert_eq!(export_dir_name("My Vault", 0), "My Vault");
    assert_eq!(export_dir_name("My Vault", 1), "My Vault (1)");
    assert_eq!(export_dir_name("My Vault", 12), "My Vault (12)");
    assert_eq!(unique_text_file_name("First note", "md", 0), "First note.md");
    assert_eq!(unique_text_file_name("First note", "md", 1), "First note 1.md");
    assert_eq!(unique_text_file_name("focus", "css", 0), "focus.css");
}

#[test]
fn export_plans_render_notes_templates_and_snippets() {
    let note = ExportNote {
        title: "First note".to_owned(),
        content: "Link to [[Second note]].".to_owned(),
        folder_path: "Projects/Alpha".to_owned(),
        tags: vec!["work".to_owned()],
    };
    let plan = plan_export_note(&note).unwrap();
    assert_eq!(plan.folder, "Projects/Alpha");
    assert_eq!(plan.stem, "First note");
    assert_eq!(
        plan.markdown,
        render_note_markdown("First note", &["work".to_owned()], "Link to [[Second note]].")
    );

    let unsafe_folder = ExportNote {
        title: "Bad".to_owned(),
        content: String::new(),
        folder_path: "../x".to_owned(),
        tags: Vec::new(),
    };
    assert_eq!(
        plan_export_note(&unsafe_folder).unwrap_err(),
        "Skipped note \"Bad\" because its folder path is unsafe: empty, current-directory, and parent-directory segments are not allowed"
    );
    let big = ExportNote {
        title: "Big".to_owned(),
        content: "x".repeat(10 * 1024 * 1024 + 1),
        folder_path: String::new(),
        tags: Vec::new(),
    };
    assert_eq!(
        plan_export_note(&big).unwrap_err(),
        "Skipped note \"Big\" because it is larger than 10 MiB."
    );

    let template = ExportTemplate { name: "Daily".to_owned(), content: "# {{date}}".to_owned() };
    assert_eq!(plan_export_template(&template).unwrap(), "Daily");
    let unnamed = ExportTemplate { name: "  ".to_owned(), content: String::new() };
    assert_eq!(plan_export_template(&unnamed).unwrap(), "Untitled template");

    let snippet = VaultSnippet {
        name: "focus.css".to_owned(),
        css: ".workspace { color: plum; }".to_owned(),
        enabled: true,
    };
    assert_eq!(plan_export_snippet(&snippet).unwrap(), "focus");
}

#[test]
fn walks_skip_links_reserved_folders_and_nested_vaults() {
    assert!(!should_visit_note_entry(&entry(1, true, ".Obsidian", &[])));
    assert!(!should_visit_note_entry(&entry(1, true, ".git", &[])));
    assert!(!should_visit_note_entry(&entry(2, true, ".obsidian-at-home", &[])));
    assert!(should_visit_note_entry(&entry(1, true, "Projects", &[])));
    assert!(should_visit_note_entry(&entry(1, false, ".trash", &[])));
    let mut link = entry(1, false, "Linked.md", &[]);
    link.is_symlink = true;
    assert!(!should_visit_note_entry(&link));
    let mut root = entry(0, true, "vault", &[]);
    root.is_symlink = true;
    assert!(should_visit_note_entry(&root));

    assert!(!should_visit_workspace_entry(&entry(1, true, ".trash", &[]), false));
    assert!(!should_visit_workspace_entry(&entry(1, true, "Nested", &[]), true));
    assert!(should_visit_workspace_entry(&entry(1, true, "Projects", &[]), false));

    let state = ["/", "vault", ".obsidian-at-home"];
    assert!(should_visit_revision_entry(&entry(1, true, ".obsidian-at-home", &state), false));
    let state_file = ["/", "vault", ".obsidian-at-home", "state.json"];
    assert!(should_visit_revision_entry(&entry(2, false, "state.json", &state_file), false));
    let positions = ["/", "vault", ".obsidian-at-home", "editor-positions.json"];
    assert!(!should_visit_revision_entry(&entry(2, false, "editor-positions.json", &positions), false));
    assert!(!should_visit_revision_entry(&entry(1, true, ".git", &["/", "vault", ".git"]), false));
    assert!(should_visit_revision_entry(&entry(2, false, "Note.md", &["/", "vault", "A", "Note.md"]), false));

    assert!(is_nested_vault_directory(&entry(1, true, "Other", &[]), true, true));
    assert!(!is_nested_vault_directory(&entry(1, true, "Other", &[]), true, false));
    assert!(!is_nested_vault_directory(&entry(0, true, "Root", &[]), true, true));
    assert!(directory_contains_nested_vault(&[false, true]));
    assert!(!directory_contains_nested_vault(&[false, false]));
}

#[test]
fn rendering_a_rendered_note_again_changes_nothing() {
    let once = render_note_markdown("  Plan  ", &["a".to_owned(), "#b".to_owned()], "Body\n");
    let twice = render_note_markdown("Other", &["c".to_owned()], &once);
    assert_eq!(twice, once);
    let empty = render_note_markdown("", &[], "");
    assert_eq!(empty, "---\ntitle: \"Untitled\"\n---\n");
    assert_eq!(render_note_markdown("x", &[], &empty), empty);
}

#[test]
fn exports_stop_listing_assets_at_the_limit() {
    assert_eq!(export_asset_limit_warning(99_999, 0), None);
    assert_eq!(
        export_asset_limit_warning(60_000, 40_000),
        Some("Only the first 100000 asset files can be transferred.".to_owned())
    );
    assert_eq!(
        export_asset_limit_warning(usize::MAX, 1),
        Some("Only the first 100000 asset files can be transferred.".to_owned())
    );
}

#[test]
fn appearance_settings_are_read_only_from_small_regular_files() {
    assert_eq!(appearance_file_warning(true, 1024 * 1024), None);
    assert_eq!(
        appearance_file_warning(true, 1024 * 1024 + 1),
        Some("Skipped .obsidian/appearance.json because it is unexpectedly large.".to_owned())
    );
    assert_eq!(
        appearance_file_warning(false, 10),
        Some("Skipped .obsidian/appearance.json because it is not a regular file.".to_owned())
    );
}
