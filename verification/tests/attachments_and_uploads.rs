use obsidian_at_home::attachments::{
    attachment_media_type_for_path, attachment_opening_decided_by_name,
    attachment_opening_is_disabled, attachment_prefix_is_executable, is_archive_attachment_path,
    is_executable_attachment_path, unique_attachment_relative_path, unique_image_relative_path,
};
use obsidian_at_home::model::ExternalFileUploadKind;
use obsidian_at_home::uploads::{
    append_external_file_upload, cancel_external_file_upload, external_file_upload_ticket,
    finish_external_file_upload, prepare_external_file_upload, record_external_file_chunk,
    remove_abandoned_external_file_uploads, should_remove_stale_external_file_upload,
    ExternalFileUpload, ExternalFileUploads, STALE_EXTERNAL_FILE_UPLOAD_MILLIS,
    EXTERNAL_FILE_UPLOAD_CHUNK_BYTES, MAX_EXTERNAL_FILE_UPLOADS,
};

fn upload(id: &str, expected_length: u64, kind: ExternalFileUploadKind, last_activity: u64) -> ExternalFileUpload {
    ExternalFileUpload {
        id: id.to_owned(),
        file_name: "Report.zip".to_owned(),
        expected_length,
        received_length: 0,
        note_relative_path: "Note.md".to_owned(),
        kind,
        last_activity,
    }
}

#[test]
fn attachment_media_types_follow_the_extension_in_any_case() {
    assert_eq!(attachment_media_type_for_path("Report.PDF"), "application/pdf");
    assert_eq!(attachment_media_type_for_path("Files/backup.tgz"), "application/gzip");
    assert_eq!(attachment_media_type_for_path("data.json"), "application/json");
    assert_eq!(
        attachment_media_type_for_path("Plan.Docx"),
        "application/vnd.openxmlformats-officedocument.wordprocessingml.document"
    );
    assert_eq!(attachment_media_type_for_path("clip.m4v"), "video/mp4");
    assert_eq!(attachment_media_type_for_path("README"), "application/octet-stream");
    assert_eq!(attachment_media_type_for_path("notes.unknown"), "application/octet-stream");
}

#[test]
fn archives_and_programs_are_recognized_by_extension() {
    assert!(is_archive_attachment_path("Backup.ZIP"));
    assert!(is_archive_attachment_path("logs.tar"));
    assert!(!is_archive_attachment_path("Report.pdf"));
    assert!(is_executable_attachment_path("setup.EXE"));
    assert!(is_executable_attachment_path("scripts/run.sh"));
    assert!(is_executable_attachment_path("Installer.msixbundle"));
    assert!(!is_executable_attachment_path("notes.txt"));
    assert!(!is_executable_attachment_path("Makefile"));
    assert_eq!(attachment_opening_decided_by_name("a.7z"), Some(false));
    assert_eq!(attachment_opening_decided_by_name("a.bat"), Some(true));
    assert_eq!(attachment_opening_decided_by_name("a.pdf"), None);
}

#[test]
fn executable_prefixes_are_detected() {
    assert!(attachment_prefix_is_executable(b"#!/bin/sh\n"));
    assert!(attachment_prefix_is_executable(b"MZ\x90\x00"));
    assert!(attachment_prefix_is_executable(b"\x7fELF\x02\x01"));
    assert!(attachment_prefix_is_executable(&[0xca, 0xfe, 0xba, 0xbe, 0, 0]));
    assert!(attachment_prefix_is_executable(&[0xcf, 0xfa, 0xed, 0xfe]));
    assert!(!attachment_prefix_is_executable(&[0xfe, 0xed, 0xfa]));
    assert!(!attachment_prefix_is_executable(b"%PDF-1.7"));
    assert!(!attachment_prefix_is_executable(b""));
    assert!(!attachment_prefix_is_executable(b"#"));
}

#[test]
fn opening_is_refused_for_programs_but_never_for_archives() {
    assert!(!attachment_opening_is_disabled("Backup.zip", 0o755, b"MZ"));
    assert!(attachment_opening_is_disabled("Setup.exe", 0, b""));
    assert!(!attachment_opening_is_disabled("Report.pdf", 0o644, b"%PDF"));
    assert!(attachment_opening_is_disabled("Report.pdf", 0o744, b"%PDF"));
    assert!(attachment_opening_is_disabled("run.dat", 0o600, b"#!/bin/sh"));
}

#[test]
fn unique_names_count_up_from_the_original_name() {
    assert_eq!(
        unique_image_relative_path("Assets", "Diagram.png", 1).unwrap(),
        "Assets/Diagram.png"
    );
    assert_eq!(
        unique_image_relative_path("Assets", "Diagram.png", 2).unwrap(),
        "Assets/Diagram 2.png"
    );
    assert_eq!(unique_image_relative_path("", "Photo.jpg", 3).unwrap(), "Photo 3.jpg");
    assert_eq!(
        unique_image_relative_path("", "Photo.jpg", 0).unwrap_err(),
        "Could not choose a unique file name for the embedded image."
    );
    assert_eq!(
        unique_image_relative_path("", "Photo.jpg", 10_001).unwrap_err(),
        "Could not choose a unique file name for the embedded image."
    );
    assert_eq!(unique_attachment_relative_path("", "Report", 2).unwrap(), "Report 2");
    assert_eq!(
        unique_attachment_relative_path("Files", "Report.pdf", 2).unwrap(),
        "Files/Report 2.pdf"
    );
    assert_eq!(
        unique_attachment_relative_path("", "Note.md", 1).unwrap_err(),
        "Markdown notes should be linked as notes, not embedded as attachments."
    );
    assert_eq!(
        unique_attachment_relative_path("", "Report.pdf", 10_001).unwrap_err(),
        "Could not choose a unique file name for the embedded attachment."
    );
}

#[test]
fn dropped_files_are_checked_before_staging() {
    let image = prepare_external_file_upload("Empty.png", 0, ExternalFileUploadKind::Image);
    assert!(image.unwrap_err().contains("between 1 byte"));
    let large = prepare_external_file_upload(
        "Large.png",
        50 * 1024 * 1024 + 1,
        ExternalFileUploadKind::Image,
    );
    assert!(large.unwrap_err().contains("50 MiB"));
    let misrouted = prepare_external_file_upload("Image.png", 10, ExternalFileUploadKind::Attachment);
    assert!(misrouted.unwrap_err().contains("image embedding"));
    assert_eq!(
        prepare_external_file_upload("Empty.txt", 0, ExternalFileUploadKind::Attachment).unwrap(),
        "Empty.txt"
    );
    assert_eq!(
        prepare_external_file_upload(
            "Large.pdf",
            4 * 1024 * 1024 * 1024 + 1,
            ExternalFileUploadKind::Attachment
        )
        .unwrap_err(),
        "The dropped file is larger than 4 GiB."
    );
    assert_eq!(
        prepare_external_file_upload("../escape.pdf", 1, ExternalFileUploadKind::Attachment)
            .unwrap_err(),
        "The dropped file name is not safe."
    );
    let ticket = external_file_upload_ticket("drop-1");
    assert_eq!(ticket.id, "drop-1");
    assert_eq!(ticket.chunk_bytes, 512 * 1024);
}

#[test]
fn ordered_chunks_complete_an_upload() {
    let mut uploads = ExternalFileUploads::new();
    uploads.insert(upload("drop-1", 6, ExternalFileUploadKind::Attachment, 1_000));
    assert_eq!(append_external_file_upload(&mut uploads, "drop-1", 0, 3), Ok(3));
    record_external_file_chunk(&mut uploads, "drop-1", 3, 1_100);
    assert_eq!(append_external_file_upload(&mut uploads, "drop-1", 3, 3), Ok(6));
    record_external_file_chunk(&mut uploads, "drop-1", 6, 1_200);
    let finished =
        finish_external_file_upload(&mut uploads, "drop-1", ExternalFileUploadKind::Attachment)
            .unwrap();
    assert_eq!(finished.received_length, 6);
    assert_eq!(finished.last_activity, 1_200);
    assert_eq!(finished.file_name, "Report.zip");
    assert_eq!(finished.note_relative_path, "Note.md");
    assert!(!uploads.contains("drop-1"));
}

#[test]
fn invalid_chunks_end_the_upload() {
    let mut uploads = ExternalFileUploads::new();
    uploads.insert(upload("drop-1", 8, ExternalFileUploadKind::Attachment, 0));
    assert_eq!(
        append_external_file_upload(&mut uploads, "drop-1", 4, 4).unwrap_err(),
        "Dropped-file transfer chunks arrived out of order."
    );
    assert!(!uploads.contains("drop-1"));
    assert_eq!(
        append_external_file_upload(&mut uploads, "drop-1", 0, 4).unwrap_err(),
        "The dropped-file transfer is no longer available."
    );

    uploads.insert(upload("drop-2", 8, ExternalFileUploadKind::Attachment, 0));
    assert_eq!(
        append_external_file_upload(&mut uploads, "drop-2", 0, EXTERNAL_FILE_UPLOAD_CHUNK_BYTES + 1)
            .unwrap_err(),
        "A dropped-file transfer chunk has an invalid size."
    );
    uploads.insert(upload("drop-3", 8, ExternalFileUploadKind::Attachment, 0));
    assert_eq!(
        append_external_file_upload(&mut uploads, "drop-3", 0, 0).unwrap_err(),
        "A dropped-file transfer chunk has an invalid size."
    );
    uploads.insert(upload("drop-4", 4, ExternalFileUploadKind::Attachment, 0));
    assert_eq!(
        append_external_file_upload(&mut uploads, "drop-4", 0, 5).unwrap_err(),
        "The dropped file contains more data than expected."
    );
    assert_eq!(uploads.len(), 0);
}

#[test]
fn unfinished_or_mismatched_uploads_do_not_finish() {
    let mut uploads = ExternalFileUploads::new();
    uploads.insert(upload("drop-1", 10, ExternalFileUploadKind::Attachment, 0));
    assert_eq!(append_external_file_upload(&mut uploads, "drop-1", 0, 4), Ok(4));
    record_external_file_chunk(&mut uploads, "drop-1", 4, 5);
    assert_eq!(
        finish_external_file_upload(&mut uploads, "drop-1", ExternalFileUploadKind::Attachment)
            .unwrap_err(),
        "The dropped file did not finish transferring."
    );
    assert!(!uploads.contains("drop-1"));

    uploads.insert(upload("drop-2", 1, ExternalFileUploadKind::Image, 0));
    assert_eq!(append_external_file_upload(&mut uploads, "drop-2", 0, 1), Ok(1));
    record_external_file_chunk(&mut uploads, "drop-2", 1, 5);
    assert_eq!(
        finish_external_file_upload(&mut uploads, "drop-2", ExternalFileUploadKind::Attachment)
            .unwrap_err(),
        "The dropped-file transfer does not match the requested asset type."
    );
    assert_eq!(
        finish_external_file_upload(&mut uploads, "drop-2", ExternalFileUploadKind::Image)
            .unwrap_err(),
        "The dropped-file transfer is no longer available."
    );
}

#[test]
fn cancelling_and_idle_timeouts_release_capacity() {
    let mut uploads = ExternalFileUploads::new();
    for index in 0..MAX_EXTERNAL_FILE_UPLOADS {
        uploads.insert(upload(
            &format!("drop-capacity-{index}"),
            1,
            ExternalFileUploadKind::Attachment,
            index as u64,
        ));
    }
    assert!(!uploads.has_capacity());
    assert!(cancel_external_file_upload(&mut uploads, "drop-capacity-3"));
    assert!(!cancel_external_file_upload(&mut uploads, "drop-capacity-3"));
    assert!(uploads.has_capacity());

    remove_abandoned_external_file_uploads(&mut uploads, 300_001);
    assert!(!uploads.contains("drop-capacity-0"));
    assert!(!uploads.contains("drop-capacity-1"));
    assert!(uploads.contains("drop-capacity-2"));
    assert_eq!(uploads.len(), MAX_EXTERNAL_FILE_UPLOADS - 3);

    let mut later = ExternalFileUploads::new();
    later.insert(upload("drop-future", 1, ExternalFileUploadKind::Attachment, 500_000));
    remove_abandoned_external_file_uploads(&mut later, 1_000);
    assert!(later.contains("drop-future"));
}

#[test]
fn recording_a_chunk_for_a_gone_upload_changes_nothing() {
    let mut uploads = ExternalFileUploads::new();
    uploads.insert(upload("drop-1", 4, ExternalFileUploadKind::Attachment, 0));
    record_external_file_chunk(&mut uploads, "missing", 2, 9);
    record_external_file_chunk(&mut uploads, "drop-1", 5, 9);
    let finished =
        finish_external_file_upload(&mut uploads, "drop-1", ExternalFileUploadKind::Attachment);
    assert_eq!(finished.unwrap_err(), "The dropped file did not finish transferring.");
}

#[test]
fn only_old_plain_drop_folders_are_swept() {
    let day = STALE_EXTERNAL_FILE_UPLOAD_MILLIS;
    assert!(should_remove_stale_external_file_upload(Some("drop-1-2-3"), true, 1, true, Some(day)));
    assert!(should_remove_stale_external_file_upload(Some("drop-x"), true, 0, false, Some(day + 1)));
    assert!(!should_remove_stale_external_file_upload(Some("drop-x"), true, 1, true, Some(day - 1)));
    assert!(!should_remove_stale_external_file_upload(Some("drop-x"), true, 1, true, None));
    assert!(!should_remove_stale_external_file_upload(Some("keep-x"), true, 1, true, Some(day)));
    assert!(!should_remove_stale_external_file_upload(None, true, 1, true, Some(day)));
    assert!(!should_remove_stale_external_file_upload(Some("drop-x"), false, 0, false, Some(day)));
    assert!(!should_remove_stale_external_file_upload(Some("drop-x"), true, 2, true, Some(day)));
    assert!(!should_remove_stale_external_file_upload(Some("drop-x"), true, 1, false, Some(day)));
}

#[test]
fn external_file_upload_invalid_chunks_cancel_and_remove_staging() {
    let begin = |uploads: &mut ExternalFileUploads, id: &str, expected_length: u64| {
        let file_name =
            prepare_external_file_upload("Report.pdf", expected_length, ExternalFileUploadKind::Attachment)
                .expect("upload should begin");
        let mut record = upload(id, expected_length, ExternalFileUploadKind::Attachment, 0);
        record.file_name = file_name;
        uploads.insert(record);
        external_file_upload_ticket(id).id
    };
    let mut uploads = ExternalFileUploads::new();

    let id = begin(&mut uploads, "drop-a", 4);
    let error = append_external_file_upload(&mut uploads, &id, 1, 4).expect_err("out-of-order chunk should fail");
    assert!(error.contains("out of order"));
    assert!(!uploads.contains(&id));
    assert!(!cancel_external_file_upload(&mut uploads, &id));

    let id = begin(&mut uploads, "drop-b", 4);
    assert_eq!(append_external_file_upload(&mut uploads, &id, 0, 2), Ok(2));
    record_external_file_chunk(&mut uploads, &id, 2, 1);
    let error = finish_external_file_upload(&mut uploads, &id, ExternalFileUploadKind::Attachment)
        .expect_err("incomplete upload should fail");
    assert!(error.contains("did not finish"));
    assert!(!uploads.contains(&id));

    let id = begin(&mut uploads, "drop-c", 4);
    assert!(cancel_external_file_upload(&mut uploads, &id));
    assert!(!uploads.contains(&id));

    let id = begin(&mut uploads, "drop-d", (EXTERNAL_FILE_UPLOAD_CHUNK_BYTES + 1) as u64);
    let error = append_external_file_upload(&mut uploads, &id, 0, EXTERNAL_FILE_UPLOAD_CHUNK_BYTES + 1)
        .expect_err("oversized chunk should fail");
    assert!(error.contains("invalid size"));
    assert!(!uploads.contains(&id));
    assert_eq!(uploads.len(), 0);
}
