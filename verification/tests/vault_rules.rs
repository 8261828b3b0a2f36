use obsidian_at_home::encoding::{read_utf8_file_bounded, percent_decode_utf8, TextReadError};
use obsidian_at_home::file_names::safe_image_file_name;
use obsidian_at_home::frontmatter::{parse_basic_frontmatter, render_note_markdown};
use obsidian_at_home::media::validate_image_bytes;
use obsidian_at_home::model::{ImageEmbedLocation, ImageEmbedSettings};
use obsidian_at_home::names::{is_virtual_folder_selection, validate_component_name};
use obsidian_at_home::rules::{
    normalize_image_embed_settings, normalize_recent_note_ids, workspace_asset_limit_reached,
};
use obsidian_at_home::vault_paths::{
    checked_relative_attachment_path, checked_relative_folder, validate_vault_name,
};
use obsidian_at_home::workspace_paths::resolve_markdown_image_path;

#[test]
fn parses_basic_frontmatter_without_touching_content() {
    let content = "---\r\ntitle: \"A linked idea\"\r\ntags: [garden, 'in progress', '#garden']\r\nextra: keep me\r\n---\r\n# Body\r\n";
    let parsed = parse_basic_frontmatter(content);

    assert_eq!(parsed.title.as_deref(), Some("A linked idea"));
    assert_eq!(parsed.tags, vec!["garden", "in progress"]);
    assert!(content.contains("extra: keep me"));
}

#[test]
fn parses_block_tags_and_yaml_comments() {
    let parsed = parse_basic_frontmatter(
        "---\ntitle: The title # a comment\ntags:\n  - one\n  - \"two words\"\n  - #three\n---\nbody",
    );

    assert_eq!(parsed.title.as_deref(), Some("The title"));
    assert_eq!(parsed.tags, vec!["one", "two words", "three"]);
}

#[test]
fn rendering_adds_frontmatter_but_preserves_existing_frontmatter() {
    let rendered = render_note_markdown(
        "A \"quoted\" title",
        &["garden".into(), "#ideas".into()],
        "A [[linked note]].",
    );
    assert!(rendered.starts_with("---\ntitle: \"A \\\"quoted\\\" title\"\n"));
    assert!(rendered.contains("  - \"garden\"\n  - \"ideas\"\n"));
    assert!(rendered.ends_with("A [[linked note]]."));

    let existing = "---\ncustom: true\n---\nBody";
    assert_eq!(render_note_markdown("Changed", &[], existing), existing);
}

#[test]
fn rejects_traversal_and_reserved_export_paths() {
    assert!(checked_relative_folder("../outside").is_err());
    assert!(checked_relative_folder("Notes/.obsidian").is_err());
    assert!(checked_relative_folder("C:/Users/person").is_err());
    assert!(checked_relative_folder(".obsidian-at-home/recently-deleted").is_err());
    assert!(checked_relative_folder("Projects/Ideas").is_ok());
    assert!(checked_relative_attachment_path("Board.canvas").is_err());
    assert!(checked_relative_attachment_path("Projects/Board.CANVAS").is_err());
    assert!(validate_vault_name("../vault").is_err());
    assert!(validate_vault_name("Obsidian At Home export").is_ok());
}

#[test]
fn bounded_note_reads_enforce_the_actual_byte_limit() {
    assert_eq!(
        read_utf8_file_bounded(b"1234567890".to_vec(), 10)
            .unwrap()
            .as_deref(),
        Some("1234567890"),
    );

    assert_eq!(read_utf8_file_bounded(b"12345678901".to_vec(), 10).unwrap(), None);

    assert_eq!(
        read_utf8_file_bounded(vec![0xff], 10).expect_err("invalid UTF-8 should be rejected"),
        TextReadError::InvalidData,
    );
}

#[test]
fn workspace_asset_limit_counts_images_and_attachments_together() {
    assert!(!workspace_asset_limit_reached(1, 1, 3));
    assert!(workspace_asset_limit_reached(2, 1, 3));
    assert!(workspace_asset_limit_reached(1, 2, 3));
    assert!(workspace_asset_limit_reached(0, 3, 3));
    assert!(workspace_asset_limit_reached(usize::MAX, 1, usize::MAX));
}

#[test]
fn normalizes_recent_notes() {
    let note_id_values = (1..=12)
        .map(|index| format!("note-{index}"))
        .collect::<Vec<_>>();
    let stored = [
        "note-2", "missing", "note-3", "note-2", "note-4", "note-5", "note-6", "note-7", "note-8",
        "note-9", "note-10", "note-11", "note-12",
    ]
    .map(str::to_owned);

    let normalized = normalize_recent_note_ids(&stored, Some("note-1"), &note_id_values);
    let expected = (1..=10)
        .map(|index| format!("note-{index}"))
        .collect::<Vec<_>>();

    assert_eq!(normalized, expected);
}

#[test]
fn image_storage_rejects_unsafe_or_mismatched_inputs() {
    const PNG: &[u8] = b"\x89PNG\r\n\x1a\nvalidation-fixture";
    assert!(validate_image_bytes(b"<svg></svg>", Some("image.svg")).is_err());
    assert!(validate_image_bytes(PNG, Some("image.jpg")).is_err());
    assert!(resolve_markdown_image_path("Notes/First.md", "../../escape.png").is_err());
    assert!(normalize_image_embed_settings(&ImageEmbedSettings {
        location: ImageEmbedLocation::SpecifiedFolder,
        folder_path: "../outside".to_owned(),
    })
    .is_err());
    assert_eq!(
        percent_decode_utf8("%7B%22fileName%22%3A%22Caf%C3%A9.png%22%7D")
            .expect("encoded metadata should decode"),
        "{\"fileName\":\"Café.png\"}",
    );
    assert!(percent_decode_utf8("%GG").is_err());
    let unicode_name = safe_image_file_name(&format!("{}.png", "😀".repeat(100)), "png");
    assert!(unicode_name.len() <= 180);
    assert!(validate_component_name(&unicode_name, "image").is_ok());
}

#[test]
fn recognizes_virtual_folder_selections() {
    assert!(is_virtual_folder_selection("all"));
    assert!(is_virtual_folder_selection("favorites"));
    assert!(is_virtual_folder_selection("recent"));
    assert!(!is_virtual_folder_selection("folder-id"));
}
