use obsidian_at_home::attachments::{unique_attachment_relative_path, unique_image_relative_path};
use obsidian_at_home::import_paths::{
    import_candidate_is_free, keep_import_source_path, workspace_attachment_import_candidate,
    workspace_image_import_candidate,
};

#[test]
fn an_imported_asset_keeps_its_own_path_when_it_is_free_or_already_there() {
    assert_eq!(keep_import_source_path(false, false, false), Some(false));
    assert_eq!(keep_import_source_path(false, true, true), Some(true));
    assert_eq!(keep_import_source_path(false, true, false), None);
    assert_eq!(keep_import_source_path(true, false, false), None);
    assert_eq!(keep_import_source_path(true, true, true), None);
    assert!(import_candidate_is_free(false, false));
    assert!(!import_candidate_is_free(true, false));
    assert!(!import_candidate_is_free(false, true));
}

#[test]
fn imported_images_are_numbered_beside_their_source() {
    assert_eq!(
        workspace_image_import_candidate("Notes/pic.png", 2),
        Ok("Notes/pic 2.png".to_owned())
    );
    assert_eq!(
        workspace_image_import_candidate("pic.JPG", 17),
        Ok("pic 17.JPG".to_owned())
    );
    assert_eq!(
        workspace_image_import_candidate("Notes/pic.png", 10001),
        Ok("Notes/pic 10001.png".to_owned())
    );
    assert_eq!(
        workspace_image_import_candidate("Notes/pic.png", 1),
        Err("Could not choose a collision-free vault path for Notes/pic.png.".to_owned())
    );
    assert_eq!(
        workspace_image_import_candidate("Notes/pic.png", 10002),
        Err("Could not choose a collision-free vault path for Notes/pic.png.".to_owned())
    );
    assert_ne!(
        workspace_image_import_candidate("a/b.png", 2),
        workspace_image_import_candidate("a/b.png", 3)
    );
}

#[test]
fn imported_images_without_an_extension_become_png_and_are_checked() {
    assert_eq!(
        workspace_image_import_candidate("Notes/scan", 3),
        Ok("Notes/scan 3.png".to_owned())
    );
    assert!(workspace_image_import_candidate("Notes/doc.txt", 2).is_err());
}

#[test]
fn imported_attachments_are_numbered_beside_their_source() {
    assert_eq!(
        workspace_attachment_import_candidate("Files/report.pdf", 2),
        Ok("Files/report 2.pdf".to_owned())
    );
    assert_eq!(
        workspace_attachment_import_candidate("Files/README", 4),
        Ok("Files/README 4".to_owned())
    );
    assert_eq!(
        workspace_attachment_import_candidate("README", 0),
        Err("Could not choose a collision-free vault path for README.".to_owned())
    );
}

#[test]
fn numbered_copies_of_new_files_never_repeat() {
    let second = unique_image_relative_path("Media", "cat.png", 2);
    let third = unique_image_relative_path("Media", "cat.png", 3);
    assert_eq!(second, Ok("Media/cat 2.png".to_owned()));
    assert_eq!(third, Ok("Media/cat 3.png".to_owned()));
    assert_ne!(second, third);
    assert_ne!(
        unique_attachment_relative_path("Files", "notes", 12),
        unique_attachment_relative_path("Files", "notes", 21)
    );
}
