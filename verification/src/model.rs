//! The records the app exchanges with its interface: notes, folders,
//! templates, snippets, embedded assets and the results of vault operations.
use std::collections::BTreeMap;
use vstd::prelude::*;

verus! {

/// A font family installed on the computer.
#[derive(Debug, Clone, PartialEq, Eq)]
pub struct SystemFont {
    pub family: String,
    pub monospaced: bool,
}

/// A note read from an imported vault.
#[derive(Debug, Clone, PartialEq, Eq)]
pub struct ImportedNote {
    pub title: String,
    pub content: String,
    pub folder_path: String,
    pub relative_path: String,
    pub tags: Vec<String>,
}

/// An image file found in an imported vault.
#[derive(Debug, Clone, PartialEq, Eq)]
pub struct ImportedImage {
    pub relative_path: String,
}

/// A non-image file found in an imported vault.
#[derive(Debug, Clone, PartialEq, Eq)]
pub struct ImportedAttachment {
    pub relative_path: String,
}

/// A CSS snippet of a vault, and whether the vault enables it.
#[derive(Debug, Clone, PartialEq, Eq)]
pub struct VaultSnippet {
    pub name: String,
    pub css: String,
    pub enabled: bool,
}

/// Everything read from a vault being imported.
#[derive(Debug, Clone, PartialEq, Eq)]
pub struct ImportResult {
    pub vault_name: String,
    pub images: Vec<ImportedImage>,
    pub attachments: Vec<ImportedAttachment>,
    pub notes: Vec<ImportedNote>,
    pub snippets: Vec<VaultSnippet>,
    pub warnings: Vec<String>,
}

/// A note to be written into an exported vault.
#[derive(Debug, Clone, PartialEq, Eq)]
pub struct ExportNote {
    pub title: String,
    pub content: String,
    pub folder_path: String,
    pub tags: Vec<String>,
}

/// A template to be written into an exported vault.
#[derive(Debug, Clone, PartialEq, Eq)]
pub struct ExportTemplate {
    pub name: String,
    pub content: String,
}

/// What an export wrote, and where.
#[derive(Debug, Clone, PartialEq, Eq)]
pub struct ExportResult {
    pub path: String,
    pub image_count: usize,
    pub attachment_count: usize,
    pub note_count: usize,
    pub template_count: usize,
    pub snippet_count: usize,
    pub warnings: Vec<String>,
}

/// A note of an open vault.
#[derive(Debug, Clone, PartialEq, Eq)]
pub struct Note {
    pub id: String,
    pub relative_path: String,
    pub title: String,
    pub content: String,
    pub folder_id: Option<String>,
    pub tags: Vec<String>,
    pub pinned: bool,
    pub created_at: u64,
    pub updated_at: u64,
}

/// A folder of an open vault.
#[derive(Debug, Clone, PartialEq, Eq)]
pub struct Folder {
    pub id: String,
    pub name: String,
    pub parent_id: Option<String>,
    pub created_at: u64,
}

/// A reusable note template.
#[derive(Debug, Clone, PartialEq, Eq)]
pub struct NoteTemplate {
    pub id: String,
    pub name: String,
    pub description: String,
    pub title_pattern: String,
    pub content: String,
    pub glyph: String,
    pub created_at: u64,
    pub built_in: Option<bool>,
}

/// A CSS snippet that styles the app.
#[derive(Debug, Clone, PartialEq, Eq)]
pub struct CssSnippet {
    pub id: String,
    pub name: String,
    pub description: String,
    pub css: String,
    pub enabled: bool,
    pub created_at: u64,
    pub built_in: Option<bool>,
}

/// Where new embedded files are stored.
#[derive(Debug, Clone, Copy, PartialEq, Eq, Structural)]
pub enum ImageEmbedLocation {
    VaultRoot,
    NoteFolder,
    SpecifiedFolder,
}

/// Where new embedded images (or attachments) go: the location, and the
/// vault-relative folder when the location is a chosen folder.
#[derive(Debug, Clone, PartialEq, Eq)]
pub struct ImageEmbedSettings {
    pub location: ImageEmbedLocation,
    pub folder_path: String,
}

impl Default for ImageEmbedSettings {
    /// New files go to the vault root.
    fn default() -> (r: Self)
        ensures
            r.location == ImageEmbedLocation::VaultRoot,
            r.folder_path@ == Seq::<char>::empty(),
    {
        ImageEmbedSettings { location: ImageEmbedLocation::VaultRoot, folder_path: String::new() }
    }
}

/// An image stored in the vault under a stable ID.
#[derive(Debug, Clone, PartialEq, Eq)]
pub struct EmbeddedImage {
    pub id: String,
    pub relative_path: String,
    pub media_type: String,
}

/// An image file of the vault, with its stable ID when it has one.
#[derive(Debug, Clone, PartialEq, Eq)]
pub struct VaultImageFile {
    pub asset_id: Option<String>,
    pub relative_path: String,
    pub media_type: String,
}

/// A non-image file stored in the vault under a stable ID.
#[derive(Debug, Clone, PartialEq, Eq)]
pub struct EmbeddedAttachment {
    pub id: String,
    pub relative_path: String,
    pub media_type: String,
    pub byte_length: u64,
    pub opening_disabled: bool,
}

/// A non-image file of the vault, with its stable ID when it has one.
#[derive(Debug, Clone, PartialEq, Eq)]
pub struct VaultAttachmentFile {
    pub asset_id: Option<String>,
    pub relative_path: String,
    pub media_type: String,
    pub byte_length: u64,
    pub opening_disabled: bool,
}

/// Everything the interface shows of an open vault.
#[derive(Debug, Clone, PartialEq, Eq)]
pub struct VaultData {
    pub name: String,
    pub notes: Vec<Note>,
    pub folders: Vec<Folder>,
    pub templates: Vec<NoteTemplate>,
    pub snippets: Vec<CssSnippet>,
    pub active_note_id: Option<String>,
    pub recent_note_ids: Vec<String>,
    pub selected_folder_id: String,
    pub embedded_images: Vec<EmbeddedImage>,
    pub image_files: Vec<VaultImageFile>,
    pub image_embed_settings: ImageEmbedSettings,
    pub embedded_attachments: Vec<EmbeddedAttachment>,
    pub attachment_files: Vec<VaultAttachmentFile>,
    pub attachment_embed_settings: ImageEmbedSettings,
}

/// A vault the app has opened: its name, folder and when it was last opened.
#[derive(Debug, Clone, PartialEq, Eq)]
pub struct VaultDescriptor {
    pub name: String,
    pub path: String,
    pub last_opened_at: u64,
}

/// A text selection in the note editor.
#[derive(Debug, Clone, Copy, PartialEq, Eq, Structural)]
pub struct NoteEditorSelection {
    pub anchor: u64,
    pub head: u64,
}

/// The outcome of saving notes.
#[derive(Debug, Clone, PartialEq, Eq)]
pub struct SaveResult {
    pub note_paths: BTreeMap<String, String>,
    pub revision: u64,
    pub saved_at: u64,
    pub warnings: Vec<String>,
}

/// The outcome of removing recently deleted notes.
#[derive(Debug, Clone, PartialEq, Eq)]
pub struct WorkspaceRecoveryMutationResult {
    pub removed_ids: Vec<String>,
    pub revision: u64,
    pub saved_at: u64,
    pub warnings: Vec<String>,
}

/// The outcome of embedding an image.
#[derive(Debug, Clone, PartialEq, Eq)]
pub struct WorkspaceEmbedImageResult {
    pub image: EmbeddedImage,
    pub revision: u64,
    pub saved_at: u64,
    pub warnings: Vec<String>,
}

/// The outcome of embedding an attachment.
#[derive(Debug, Clone, PartialEq, Eq)]
pub struct WorkspaceEmbedAttachmentResult {
    pub attachment: EmbeddedAttachment,
    pub revision: u64,
    pub saved_at: u64,
    pub warnings: Vec<String>,
}

/// A dropped-file transfer that has begun: its ID and the chunk size to send.
#[derive(Debug, Clone, PartialEq, Eq)]
pub struct WorkspaceExternalFileUpload {
    pub id: String,
    pub chunk_bytes: usize,
}

/// Which pipeline a dropped file goes through.
#[derive(Debug, Clone, Copy, PartialEq, Eq, Structural)]
pub enum ExternalFileUploadKind {
    Image,
    Attachment,
}

/// The kinds of vault item that can be revealed or located.
#[derive(Debug, Clone, Copy, PartialEq, Eq, Structural)]
pub enum WorkspaceVaultItemKind {
    Note,
    Folder,
    Image,
    Attachment,
}

/// The outcome of discarding an unused dropped file.
#[derive(Debug, Clone, PartialEq, Eq)]
pub struct WorkspaceExternalAssetDiscardResult {
    pub discarded: bool,
    pub note_paths: BTreeMap<String, String>,
    pub revision: u64,
    pub saved_at: u64,
    pub warnings: Vec<String>,
}

/// A note whose references change when an asset moves: the content expected
/// on disk and the content to write.
#[derive(Debug, Clone, PartialEq, Eq)]
pub struct WorkspaceImageNoteUpdate {
    pub note_id: String,
    pub relative_path: String,
    pub expected_content: String,
    pub content: String,
}

/// The outcome of moving an image.
#[derive(Debug, Clone, PartialEq, Eq)]
pub struct WorkspaceRelocateImageResult {
    pub image: EmbeddedImage,
    pub previous_relative_path: String,
    pub revision: u64,
    pub saved_at: u64,
    pub warnings: Vec<String>,
}

/// The outcome of moving an attachment.
#[derive(Debug, Clone, PartialEq, Eq)]
pub struct WorkspaceRelocateAttachmentResult {
    pub attachment: EmbeddedAttachment,
    pub previous_relative_path: String,
    pub revision: u64,
    pub saved_at: u64,
    pub warnings: Vec<String>,
}

/// Where a copy of an attachment was saved.
#[derive(Debug, Clone, PartialEq, Eq)]
pub struct WorkspaceAttachmentCopyResult {
    pub path: String,
}

/// The outcome of importing image and attachment files.
#[derive(Debug, Clone, PartialEq, Eq)]
pub struct WorkspaceImportImagesResult {
    pub image_count: usize,
    pub image_files: Vec<VaultImageFile>,
    pub attachment_count: usize,
    pub attachment_files: Vec<VaultAttachmentFile>,
    pub path_mappings: BTreeMap<String, String>,
    pub transaction_id: Option<String>,
    pub revision: u64,
    pub saved_at: u64,
    pub warnings: Vec<String>,
}

/// The outcome of saving imported notes together with their assets.
#[derive(Debug, Clone, PartialEq, Eq)]
pub struct WorkspaceImportSaveResult {
    pub saved: bool,
    pub error: Option<String>,
    pub note_paths: BTreeMap<String, String>,
    pub revision: u64,
    pub saved_at: u64,
    pub warnings: Vec<String>,
}

} // verus!
