//! Small rules of an open vault: its display name, the recent-notes list,
//! the asset budget and where new embedded files are stored.
#![verifier::loop_isolation(false)]

use crate::frontmatter::strings_view;
use crate::model::{ImageEmbedLocation, ImageEmbedSettings};
use crate::paths::{parent, spec_parent};
use crate::text::{chars_eq, chars_of, owned, spec_trim, spec_trim_in, string_of, trim, trim_in};
use crate::workspace_paths::{
    spec_relative_path_error, validate_markdown_relative_path, validate_relative_path,
};
use vstd::prelude::*;

verus! {

/// The most notes the recent-notes list holds.
pub const MAX_RECENT_NOTES: usize = 10;

/// The most images and attachments a vault tracks together.
pub const MAX_VAULT_ASSETS: usize = 100000;

/// Whether a vault with `image_count` images and `attachment_count`
/// attachments has used up its budget of `limit` assets; the sum saturates.
pub fn workspace_asset_limit_reached(image_count: usize, attachment_count: usize, limit: usize) -> (r: bool)
    ensures
        r == (image_count + attachment_count >= limit),
{
    if image_count > usize::MAX - attachment_count {
        true
    } else {
        image_count + attachment_count >= limit
    }
}

/// The name a vault is shown under: the requested name, trimmed, unless it
/// is blank; then the folder's own name; then `Vault`.
pub open spec fn spec_display_vault_name(requested: Seq<char>, folder_name: Option<Seq<char>>) -> Seq<char> {
    if spec_trim(requested).len() > 0 {
        spec_trim(requested)
    } else {
        match folder_name {
            Some(n) => if n.len() > 0 { n } else { "Vault"@ },
            None => "Vault"@,
        }
    }
}

/// The name a vault is shown under. `folder_name` is the last component of
/// the vault's folder, when it has one that is valid Unicode.
pub fn display_vault_name(requested: &str, folder_name: Option<&str>) -> (r: String)
    ensures
        r@ == spec_display_vault_name(requested@, match folder_name {
            Some(n) => Some(n@),
            None => None,
        }),
{
    let t = trim(&chars_of(requested));
    if t.len() > 0 {
        return string_of(&t);
    }
    match folder_name {
        Some(n) => if n.unicode_len() > 0 {
            owned(n)
        } else {
            owned("Vault")
        },
        None => owned("Vault"),
    }
}

// ---------------------------------------------------------------------------
// Recent notes
// ---------------------------------------------------------------------------

/// The IDs offered for the recent-notes list: the active note first, then
/// the stored list.
pub open spec fn spec_recent_candidates(recent: Seq<Seq<char>>, active: Option<Seq<char>>) -> Seq<Seq<char>> {
    match active {
        Some(a) => seq![a] + recent,
        None => recent,
    }
}

/// The recent-notes list built from the first `n` candidates: a candidate is
/// taken when it names a note, is not taken yet, and the list is not full.
pub open spec fn spec_recent_fold(cands: Seq<Seq<char>>, known: Seq<Seq<char>>, n: int) -> Seq<Seq<char>>
    decreases n,
{
    if n <= 0 {
        Seq::empty()
    } else {
        let acc = spec_recent_fold(cands, known, n - 1);
        let id = cands[n - 1];
        if acc.len() < MAX_RECENT_NOTES && known.contains(id) && !acc.contains(id) {
            acc.push(id)
        } else {
            acc
        }
    }
}

/// The recent-notes list: at most ten distinct IDs of existing notes, in the
/// order they are offered.
pub open spec fn spec_normalize_recent(recent: Seq<Seq<char>>, active: Option<Seq<char>>, known: Seq<Seq<char>>) -> Seq<Seq<char>> {
    let c = spec_recent_candidates(recent, active);
    spec_recent_fold(c, known, c.len() as int)
}

/// Every list the fold builds is short, free of repeats, and names only
/// existing notes.
pub proof fn lemma_recent_fold(cands: Seq<Seq<char>>, known: Seq<Seq<char>>, n: int)
    requires
        0 <= n <= cands.len(),
    ensures
        spec_recent_fold(cands, known, n).len() <= MAX_RECENT_NOTES,
        spec_recent_fold(cands, known, n).no_duplicates(),
        forall|i: int| 0 <= i < spec_recent_fold(cands, known, n).len()
            ==> known.contains(#[trigger] spec_recent_fold(cands, known, n)[i]),
    decreases n,
{
    if n > 0 {
        lemma_recent_fold(cands, known, n - 1);
    }
}

/// Whether `list` holds `id`.
pub fn contains_string(list: &[String], id: &str) -> (r: bool)
    ensures
        r == strings_view(list@).contains(id@),
{
    let target = chars_of(id);
    let mut i: usize = 0;
    while i < list.len()
        invariant
            i <= list.len(),
            target@ == id@,
            forall|j: int| 0 <= j < i ==> strings_view(list@)[j] != id@,
        decreases list.len() - i,
    {
        if chars_eq(&chars_of(list[i].as_str()), &target) {
            assert(strings_view(list@)[i as int] == id@);
            return true;
        }
        i = i + 1;
    }
    false
}

fn offer_recent(normalized: &mut Vec<String>, id: &str, note_ids: &[String])
    ensures
        strings_view(final(normalized)@) == {
            let acc = strings_view(old(normalized)@);
            if acc.len() < MAX_RECENT_NOTES && strings_view(note_ids@).contains(id@) && !acc.contains(id@) {
                acc.push(id@)
            } else {
                acc
            }
        },
{
    if normalized.len() < MAX_RECENT_NOTES && contains_string(note_ids, id) && !contains_string(
        normalized,
        id,
    ) {
        let ghost before = strings_view(normalized@);
        normalized.push(owned(id));
        assert(strings_view(normalized@) =~= before.push(id@));
    }
}

/// The recent-notes list of a vault: the active note and then the stored
/// list, keeping only IDs of existing notes (`note_ids`), each once, and at
/// most ten.
pub fn normalize_recent_note_ids(recent_note_ids: &[String], active_note_id: Option<&str>, note_ids: &[String]) -> (r: Vec<String>)
    ensures
        strings_view(r@) == spec_normalize_recent(
            strings_view(recent_note_ids@),
            match active_note_id {
                Some(a) => Some(a@),
                None => None,
            },
            strings_view(note_ids@),
        ),
        r@.len() <= MAX_RECENT_NOTES,
        strings_view(r@).no_duplicates(),
        forall|i: int| 0 <= i < r@.len() ==> strings_view(note_ids@).contains(#[trigger] r@[i]@),
{
    let ghost known = strings_view(note_ids@);
    let ghost recent = strings_view(recent_note_ids@);
    let ghost active = match active_note_id {
        Some(a) => Some(a@),
        None => None,
    };
    let ghost cands = spec_recent_candidates(recent, active);
    let mut normalized: Vec<String> = Vec::new();
    let mut offset: usize = 0;
    match active_note_id {
        Some(a) => {
            assert(strings_view(normalized@) =~= Seq::<Seq<char>>::empty());
            assert(cands[0] == a@);
            assert(spec_recent_fold(cands, known, 0) == Seq::<Seq<char>>::empty());
            offer_recent(&mut normalized, a, note_ids);
            offset = 1;
            assert(strings_view(normalized@) == spec_recent_fold(cands, known, 1));
        },
        None => {
            assert(strings_view(normalized@) =~= spec_recent_fold(cands, known, 0));
        },
    }
    let mut i: usize = 0;
    while i < recent_note_ids.len()
        invariant
            i <= recent_note_ids.len(),
            cands.len() == offset + recent_note_ids@.len(),
            forall|j: int| 0 <= j < recent.len() ==> cands[offset + j] == recent[j],
            strings_view(normalized@) == spec_recent_fold(cands, known, offset + i),
        decreases recent_note_ids.len() - i,
    {
        offer_recent(&mut normalized, recent_note_ids[i].as_str(), note_ids);
        assert(cands[offset + i] == recent[i as int]);
        i = i + 1;
    }
    proof {
        lemma_recent_fold(cands, known, cands.len() as int);
        assert forall|k: int| 0 <= k < normalized@.len() implies known.contains(#[trigger] normalized@[k]@) by {
            assert(strings_view(normalized@)[k] == normalized@[k]@);
        }
    }
    normalized
}

// ---------------------------------------------------------------------------
// Where embedded files go
// ---------------------------------------------------------------------------

/// A chosen folder as it is stored: trimmed, without `/` at either end.
pub open spec fn spec_normalized_folder(folder: Seq<char>) -> Seq<char> {
    spec_trim_in(spec_trim(folder), seq!['/'])
}

/// Settings as the rules read them: the location and the folder's text.
pub open spec fn settings_view(s: ImageEmbedSettings) -> (ImageEmbedLocation, Seq<char>) {
    (s.location, s.folder_path@)
}

/// The stored form of embed settings, or why they are refused: the root and
/// the note's folder carry no folder path; a chosen folder must be a valid
/// vault folder. `missing` is the message for a blank chosen folder.
pub open spec fn spec_normalize_embed_settings(location: ImageEmbedLocation, folder: Seq<char>, missing: Seq<char>) -> Result<(ImageEmbedLocation, Seq<char>), Seq<char>> {
    match location {
        ImageEmbedLocation::VaultRoot => Ok((ImageEmbedLocation::VaultRoot, Seq::empty())),
        ImageEmbedLocation::NoteFolder => Ok((ImageEmbedLocation::NoteFolder, Seq::empty())),
        ImageEmbedLocation::SpecifiedFolder => {
            let f = spec_normalized_folder(folder);
            if f.len() == 0 {
                Err(missing)
            } else {
                match spec_relative_path_error(f, false) {
                    Some(e) => Err(e),
                    None => Ok((ImageEmbedLocation::SpecifiedFolder, f)),
                }
            }
        },
    }
}

/// The message for a blank chosen folder for images.
pub open spec fn spec_missing_image_folder() -> Seq<char> {
    "Choose a vault-relative folder for embedded images."@
}

/// The message for a blank chosen folder for attachments.
pub open spec fn spec_missing_attachment_folder() -> Seq<char> {
    "Choose a vault-relative folder for embedded files."@
}

pub open spec fn view_settings_result(r: Result<ImageEmbedSettings, String>) -> Result<(ImageEmbedLocation, Seq<char>), Seq<char>> {
    match r {
        Ok(s) => Ok(settings_view(s)),
        Err(e) => Err(e@),
    }
}

fn normalize_embed_settings(settings: &ImageEmbedSettings, missing: &str) -> (r: Result<ImageEmbedSettings, String>)
    ensures
        view_settings_result(r) == spec_normalize_embed_settings(settings.location, settings.folder_path@, missing@),
{
    match settings.location {
        ImageEmbedLocation::VaultRoot => Ok(ImageEmbedSettings {
            location: ImageEmbedLocation::VaultRoot,
            folder_path: String::new(),
        }),
        ImageEmbedLocation::NoteFolder => Ok(ImageEmbedSettings {
            location: ImageEmbedLocation::NoteFolder,
            folder_path: String::new(),
        }),
        ImageEmbedLocation::SpecifiedFolder => {
            let slash = vec!['/'];
            let f = trim_in(&trim(&chars_of(settings.folder_path.as_str())), &slash);
            assert(slash@ == seq!['/']);
            if f.len() == 0 {
                return Err(owned(missing));
            }
            let folder_path = string_of(&f);
            match validate_relative_path(folder_path.as_str(), false) {
                Err(e) => Err(e),
                Ok(()) => Ok(ImageEmbedSettings { location: ImageEmbedLocation::SpecifiedFolder, folder_path }),
            }
        },
    }
}

/// The stored form of the settings for new embedded images, or why they are refused.
pub fn normalize_image_embed_settings(settings: &ImageEmbedSettings) -> (r: Result<ImageEmbedSettings, String>)
    ensures
        view_settings_result(r) == spec_normalize_embed_settings(settings.location, settings.folder_path@, spec_missing_image_folder()),
{
    normalize_embed_settings(settings, "Choose a vault-relative folder for embedded images.")
}

/// The stored form of the settings for new embedded attachments, or why they are refused.
pub fn normalize_attachment_embed_settings(settings: &ImageEmbedSettings) -> (r: Result<ImageEmbedSettings, String>)
    ensures
        view_settings_result(r) == spec_normalize_embed_settings(settings.location, settings.folder_path@, spec_missing_attachment_folder()),
{
    normalize_embed_settings(settings, "Choose a vault-relative folder for embedded files.")
}

/// The vault folder that receives a file embedded into the note at `note`,
/// or why none can: the root (empty), the note's own folder, or the chosen folder.
pub open spec fn spec_destination_folder(note: Seq<char>, location: ImageEmbedLocation, folder: Seq<char>, missing: Seq<char>) -> Result<Seq<char>, Seq<char>> {
    match spec_relative_path_error(note, true) {
        Some(e) => Err(e),
        None => match spec_normalize_embed_settings(location, folder, missing) {
            Err(e) => Err(e),
            Ok((loc, f)) => match loc {
                ImageEmbedLocation::VaultRoot => Ok(Seq::empty()),
                ImageEmbedLocation::NoteFolder => Ok(spec_parent(note)),
                ImageEmbedLocation::SpecifiedFolder => Ok(f),
            },
        },
    }
}

fn destination_folder(note_relative_path: &str, settings: &ImageEmbedSettings, missing: &str) -> (r: Result<String, String>)
    ensures
        crate::vault_paths::view_string_result(r) == spec_destination_folder(note_relative_path@, settings.location, settings.folder_path@, missing@),
{
    match validate_markdown_relative_path(note_relative_path) {
        Err(e) => return Err(e),
        Ok(()) => {},
    }
    let normalized = match normalize_embed_settings(settings, missing) {
        Err(e) => return Err(e),
        Ok(s) => s,
    };
    match normalized.location {
        ImageEmbedLocation::VaultRoot => Ok(String::new()),
        ImageEmbedLocation::NoteFolder => Ok(string_of(&parent(&chars_of(note_relative_path)))),
        ImageEmbedLocation::SpecifiedFolder => Ok(normalized.folder_path),
    }
}

/// The vault folder that receives an image embedded into the note at `note_relative_path`.
pub fn image_destination_folder(note_relative_path: &str, settings: &ImageEmbedSettings) -> (r: Result<String, String>)
    ensures
        crate::vault_paths::view_string_result(r) == spec_destination_folder(note_relative_path@, settings.location, settings.folder_path@, spec_missing_image_folder()),
{
    destination_folder(note_relative_path, settings, "Choose a vault-relative folder for embedded images.")
}

/// The vault folder that receives an attachment embedded into the note at `note_relative_path`.
pub fn attachment_destination_folder(note_relative_path: &str, settings: &ImageEmbedSettings) -> (r: Result<String, String>)
    ensures
        crate::vault_paths::view_string_result(r) == spec_destination_folder(note_relative_path@, settings.location, settings.folder_path@, spec_missing_attachment_folder()),
{
    destination_folder(note_relative_path, settings, "Choose a vault-relative folder for embedded files.")
}


/// The name a storage location is written under in settings files.
pub fn image_embed_location_name(location: ImageEmbedLocation) -> (r: &'static str)
    ensures
        r@ == match location {
            ImageEmbedLocation::VaultRoot => "vault-root"@,
            ImageEmbedLocation::NoteFolder => "note-folder"@,
            ImageEmbedLocation::SpecifiedFolder => "specified-folder"@,
        },
{
    match location {
        ImageEmbedLocation::VaultRoot => "vault-root",
        ImageEmbedLocation::NoteFolder => "note-folder",
        ImageEmbedLocation::SpecifiedFolder => "specified-folder",
    }
}

/// The storage location a settings file names; the mirrored-folder form
/// written by earlier versions reads as a chosen folder.
pub open spec fn spec_image_embed_location_from_name(name: Seq<char>) -> Option<ImageEmbedLocation> {
    if name == "vault-root"@ {
        Some(ImageEmbedLocation::VaultRoot)
    } else if name == "note-folder"@ {
        Some(ImageEmbedLocation::NoteFolder)
    } else if name == "specified-folder"@ || name == "specified-folder-mirrored"@ {
        Some(ImageEmbedLocation::SpecifiedFolder)
    } else {
        None
    }
}

/// The storage location a settings file names, if it names one.
pub fn image_embed_location_from_name(name: &str) -> (r: Option<ImageEmbedLocation>)
    ensures
        r == spec_image_embed_location_from_name(name@),
{
    let n = chars_of(name);
    if chars_eq(&n, &chars_of("vault-root")) {
        Some(ImageEmbedLocation::VaultRoot)
    } else if chars_eq(&n, &chars_of("note-folder")) {
        Some(ImageEmbedLocation::NoteFolder)
    } else if chars_eq(&n, &chars_of("specified-folder")) || chars_eq(&n, &chars_of("specified-folder-mirrored")) {
        Some(ImageEmbedLocation::SpecifiedFolder)
    } else {
        None
    }
}

/// Reading back the name a location is written under gives the location.
pub proof fn lemma_location_name_round_trip(location: ImageEmbedLocation)
    ensures
        spec_image_embed_location_from_name(match location {
            ImageEmbedLocation::VaultRoot => "vault-root"@,
            ImageEmbedLocation::NoteFolder => "note-folder"@,
            ImageEmbedLocation::SpecifiedFolder => "specified-folder"@,
        }) == Some(location),
{
    reveal_strlit("vault-root");
    reveal_strlit("note-folder");
    reveal_strlit("specified-folder");
    reveal_strlit("specified-folder-mirrored");
    assert("vault-root"@.len() == 10);
    assert("note-folder"@.len() == 11);
    assert("specified-folder"@.len() == 16);
    assert("specified-folder-mirrored"@.len() == 25);
}

} // verus!
