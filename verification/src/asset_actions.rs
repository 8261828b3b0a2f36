//! What happens to a single asset on request: whether an unused dropped
//! file may be removed, where an archive copy may be saved, and which vault
//! path an attachment action works on.
use crate::assets::VaultAssetKind;
use crate::names::{is_valid_asset_id, spec_is_valid_asset_id};
use crate::text::{chars_eq, chars_of, owned};
use crate::workspace_paths::{
    as_result, spec_attachment_relative_path_error, spec_image_relative_path_error, validate_attachment_relative_path,
    validate_image_relative_path, view_result,
};
use vstd::prelude::*;

verus! {

// ---------------------------------------------------------------------------
// Cleaning up a dropped file no note kept
// ---------------------------------------------------------------------------

/// What was found out about a vault before an unused dropped file is
/// cleaned up.
pub struct DiscardFacts {
    /// The vault's records exist but could not be read.
    pub state_unreadable: bool,
    /// The vault's revision now.
    pub revision: u64,
    /// The kind and stored path of the record kept under the file's ID.
    pub stored: Option<(VaultAssetKind, String)>,
    /// Where the file is in the vault, or why it cannot be reached.
    pub located: Result<(), String>,
    /// Whether a saved note refers to the file's ID, or why the notes
    /// could not be read.
    pub referenced: Result<bool, String>,
    /// Whether the file still has the fingerprint and time its record
    /// gives, or why it could not be read.
    pub matches_record: Result<bool, String>,
}

/// What cleaning up a dropped file does.
#[derive(Debug, Clone, PartialEq, Eq)]
pub enum DiscardDecision {
    /// The file stays, with this warning.
    Retain(String),
    /// The file's record is removed and the file deleted.
    Remove,
}

pub enum DiscardView {
    Retain(Seq<char>),
    Remove,
}

pub open spec fn discard_view(d: DiscardDecision) -> DiscardView {
    match d {
        DiscardDecision::Retain(w) => DiscardView::Retain(w@),
        DiscardDecision::Remove => DiscardView::Remove,
    }
}

/// What cleaning up the dropped file `relative_path` with ID `asset_id`
/// does, or why it is refused: the file stays when the vault changed, when
/// it moved, when a saved note refers to it, or when it changed since it
/// was dropped; it is removed only otherwise.
pub open spec fn spec_discard_external_asset(
    asset_id: Seq<char>,
    relative_path: Seq<char>,
    facts: DiscardFacts,
    expected_revision: u64,
) -> Result<DiscardView, Seq<char>> {
    if !spec_is_valid_asset_id(asset_id) {
        Err("The dropped file has an invalid stable ID."@)
    } else if facts.state_unreadable {
        Err("The dropped file cannot be cleaned up while workspace metadata is unreadable or newer than this app."@)
    } else if facts.revision != expected_revision {
        Ok(DiscardView::Retain("The vault changed before the unused dropped file could be removed; the file was retained."@))
    } else {
        match facts.stored {
            None => Err("The dropped file's stable record is no longer available."@),
            Some((kind, stored_path)) => if stored_path@ != relative_path {
                Ok(DiscardView::Retain("The dropped file moved before cleanup, so it was retained at its current location."@))
            } else {
                let invalid = match kind {
                    VaultAssetKind::Image => spec_image_relative_path_error(relative_path),
                    VaultAssetKind::Attachment => spec_attachment_relative_path_error(relative_path),
                };
                if invalid is Some {
                    Err(invalid->Some_0)
                } else {
                    match facts.located {
                        Err(e) => Err(e@),
                        Ok(()) => match facts.referenced {
                            Err(e) => Err(e@),
                            Ok(true) => Ok(DiscardView::Retain("The dropped file is already referenced by a saved note, so it was retained."@)),
                            Ok(false) => match facts.matches_record {
                                Err(e) => Err(e@),
                                Ok(false) => Ok(DiscardView::Retain("The dropped file changed before cleanup, so the modified file was retained."@)),
                                Ok(true) => Ok(DiscardView::Remove),
                            },
                        },
                    }
                }
            },
        }
    }
}

/// Decides what cleaning up an unused dropped file does.
pub fn discard_external_asset(
    asset_id: &str,
    relative_path: &str,
    facts: &DiscardFacts,
    expected_revision: u64,
) -> (r: Result<DiscardDecision, String>)
    ensures
        match r {
            Ok(d) => spec_discard_external_asset(asset_id@, relative_path@, *facts, expected_revision) == Ok::<
                DiscardView,
                Seq<char>,
            >(discard_view(d)),
            Err(e) => spec_discard_external_asset(asset_id@, relative_path@, *facts, expected_revision) == Err::<
                DiscardView,
                Seq<char>,
            >(e@),
        },
{
    if !is_valid_asset_id(asset_id) {
        return Err(owned("The dropped file has an invalid stable ID."));
    }
    if facts.state_unreadable {
        return Err(owned(
            "The dropped file cannot be cleaned up while workspace metadata is unreadable or newer than this app.",
        ));
    }
    if facts.revision != expected_revision {
        return Ok(DiscardDecision::Retain(owned(
            "The vault changed before the unused dropped file could be removed; the file was retained.",
        )));
    }
    let (kind, stored_path) = match &facts.stored {
        None => return Err(owned("The dropped file's stable record is no longer available.")),
        Some(s) => s,
    };
    if !chars_eq(&chars_of(stored_path.as_str()), &chars_of(relative_path)) {
        return Ok(DiscardDecision::Retain(owned(
            "The dropped file moved before cleanup, so it was retained at its current location.",
        )));
    }
    match kind {
        VaultAssetKind::Image => validate_image_relative_path(relative_path)?,
        VaultAssetKind::Attachment => validate_attachment_relative_path(relative_path)?,
    }
    if let Err(e) = &facts.located {
        return Err(owned(e.as_str()));
    }
    match &facts.referenced {
        Err(e) => return Err(owned(e.as_str())),
        Ok(true) => {
            return Ok(DiscardDecision::Retain(owned(
                "The dropped file is already referenced by a saved note, so it was retained.",
            )))
        },
        Ok(false) => {},
    }
    match &facts.matches_record {
        Err(e) => Err(owned(e.as_str())),
        Ok(false) => Ok(DiscardDecision::Retain(owned(
            "The dropped file changed before cleanup, so the modified file was retained.",
        ))),
        Ok(true) => Ok(DiscardDecision::Remove),
    }
}

/// A dropped file that a saved note refers to is never removed.
pub proof fn lemma_referenced_files_are_kept(
    asset_id: Seq<char>,
    relative_path: Seq<char>,
    facts: DiscardFacts,
    expected_revision: u64,
)
    requires
        facts.referenced == Ok::<bool, String>(true),
    ensures
        spec_discard_external_asset(asset_id, relative_path, facts, expected_revision) != Ok::<DiscardView, Seq<char>>(
            DiscardView::Remove,
        ),
{
}

// ---------------------------------------------------------------------------
// Where an archive copy may be saved
// ---------------------------------------------------------------------------

/// What was found out about the place chosen for a copy of an attachment.
pub struct CopyTargetFacts {
    /// The chosen path is absolute.
    pub is_absolute: bool,
    /// It names a file.
    pub has_file_name: bool,
    /// It has a parent folder.
    pub has_parent: bool,
    /// Whether that folder is a plain folder (not a link), or why it could
    /// not be inspected.
    pub parent_is_plain_folder: Result<bool, String>,
    /// Whether that folder, resolved, lies inside the vault, or why it could
    /// not be resolved.
    pub parent_inside_vault: Result<bool, String>,
    /// Whether something already exists at the chosen path, or why that
    /// could not be told.
    pub target_exists: Result<bool, String>,
}

/// Why the place chosen for a copy of an attachment is refused, in order:
/// not absolute; no file name; no parent folder; the folder not a plain
/// folder; inside the vault; something already there.
pub open spec fn spec_copy_target_error(facts: CopyTargetFacts) -> Option<Seq<char>> {
    if !facts.is_absolute {
        Some("Choose an absolute location outside the vault."@)
    } else if !facts.has_file_name {
        Some("Choose a file name for the attachment copy."@)
    } else if !facts.has_parent {
        Some("The attachment copy location has no parent folder."@)
    } else {
        match facts.parent_is_plain_folder {
            Err(e) => Some(e@),
            Ok(false) => Some("Choose a regular folder, not a symbolic link."@),
            Ok(true) => match facts.parent_inside_vault {
                Err(e) => Some(e@),
                Ok(true) => Some("Archive copies must be saved outside the active vault to avoid untracked extracted files."@),
                Ok(false) => match facts.target_exists {
                    Err(e) => Some(e@),
                    Ok(true) => Some("A file already exists at that location. Choose a new name for the copy."@),
                    Ok(false) => None,
                },
            },
        }
    }
}

/// Checks the place chosen for a copy of an attachment.
pub fn check_attachment_copy_target(facts: &CopyTargetFacts) -> (r: Result<(), String>)
    ensures
        view_result(r) == as_result(spec_copy_target_error(*facts)),
{
    if !facts.is_absolute {
        return Err(owned("Choose an absolute location outside the vault."));
    }
    if !facts.has_file_name {
        return Err(owned("Choose a file name for the attachment copy."));
    }
    if !facts.has_parent {
        return Err(owned("The attachment copy location has no parent folder."));
    }
    match &facts.parent_is_plain_folder {
        Err(e) => return Err(owned(e.as_str())),
        Ok(false) => return Err(owned("Choose a regular folder, not a symbolic link.")),
        Ok(true) => {},
    }
    match &facts.parent_inside_vault {
        Err(e) => return Err(owned(e.as_str())),
        Ok(true) => {
            return Err(owned(
                "Archive copies must be saved outside the active vault to avoid untracked extracted files.",
            ))
        },
        Ok(false) => {},
    }
    match &facts.target_exists {
        Err(e) => Err(owned(e.as_str())),
        Ok(true) => Err(owned("A file already exists at that location. Choose a new name for the copy.")),
        Ok(false) => Ok(()),
    }
}

/// A copy is only ever saved outside the vault, and never over a file.
pub proof fn lemma_copies_stay_outside_the_vault(facts: CopyTargetFacts)
    requires
        spec_copy_target_error(facts) is None,
    ensures
        facts.parent_inside_vault == Ok::<bool, String>(false),
        facts.target_exists == Ok::<bool, String>(false),
{
}

// ---------------------------------------------------------------------------
// Which file an attachment action works on
// ---------------------------------------------------------------------------

/// The vault path an action on an attachment (opening or copying it) works
/// on: the path its stable record gives when it names a non-empty ID that
/// has a record, else the path the note links to; refused for an invalid
/// ID, unreadable records, a record of another kind, or an invalid path.
pub open spec fn spec_attachment_action_path(
    linked_path: Seq<char>,
    asset_id: Option<Seq<char>>,
    state_unreadable: bool,
    stored: Option<(VaultAssetKind, String)>,
) -> Result<Seq<char>, Seq<char>> {
    let chosen: Result<Seq<char>, Seq<char>> = match asset_id {
        Some(id) => if id.len() == 0 {
            Ok(linked_path)
        } else if !spec_is_valid_asset_id(id) {
            Err("The attachment has an invalid stable ID."@)
        } else if state_unreadable {
            Err("The attachment cannot be opened while workspace metadata is unreadable or newer than this app."@)
        } else {
            match stored {
                Some((kind, path)) => if kind != VaultAssetKind::Attachment {
                    Err("The stable attachment record refers to a different file type."@)
                } else {
                    Ok(path@)
                },
                None => Ok(linked_path),
            }
        },
        None => Ok(linked_path),
    };
    match chosen {
        Err(e) => Err(e),
        Ok(p) => match spec_attachment_relative_path_error(p) {
            Some(e) => Err(e),
            None => Ok(p),
        },
    }
}

/// The vault path an action on an attachment works on, `stored` being the
/// record kept under its ID, if any.
pub fn attachment_action_path(
    linked_path: &str,
    asset_id: Option<&str>,
    state_unreadable: bool,
    stored: &Option<(VaultAssetKind, String)>,
) -> (r: Result<String, String>)
    ensures
        crate::vault_paths::view_string_result(r) == spec_attachment_action_path(
            linked_path@,
            match asset_id {
                Some(id) => Some(id@),
                None => None,
            },
            state_unreadable,
            *stored,
        ),
{
    let chosen: String = match asset_id {
        Some(id) => if chars_of(id).len() == 0 {
            owned(linked_path)
        } else if !is_valid_asset_id(id) {
            return Err(owned("The attachment has an invalid stable ID."));
        } else if state_unreadable {
            return Err(owned(
                "The attachment cannot be opened while workspace metadata is unreadable or newer than this app.",
            ));
        } else {
            match stored {
                Some((kind, path)) => if *kind != VaultAssetKind::Attachment {
                    return Err(owned("The stable attachment record refers to a different file type."));
                } else {
                    owned(path.as_str())
                },
                None => owned(linked_path),
            }
        },
        None => owned(linked_path),
    };
    match validate_attachment_relative_path(chosen.as_str()) {
        Err(e) => Err(e),
        Ok(()) => Ok(chosen),
    }
}

} // verus!
