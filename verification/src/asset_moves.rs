//! Moving or renaming an image or attachment inside a vault: which moves
//! are allowed, which note rewrites may go with them, and the record the
//! asset is kept under afterwards.
#![verifier::loop_isolation(false)]

use crate::assets::{StoredVaultAsset, VaultAssetKind};
use crate::model::WorkspaceImageNoteUpdate;
use crate::names::{is_valid_asset_id, spec_is_valid_asset_id};
use crate::workspace_paths::{
    spec_attachment_relative_path_error, spec_image_relative_path_error, validate_attachment_relative_path,
    validate_image_relative_path,
};
use crate::text::{chars_eq, chars_of, concat3, owned, spec_utf8_len, utf8_len_within};
use crate::workspace_paths::{as_result, spec_relative_path_error, validate_markdown_relative_path, view_result};
use vstd::prelude::*;

verus! {

/// The most notes one move may rewrite.
pub const MAX_NOTE_UPDATES: usize = 100000;

/// The largest note a move may rewrite, before or after: 10 MiB.
pub const MAX_NOTE_UPDATE_BYTES: usize = 10485760;

/// The most note content one move may write in all: 512 MiB.
pub const MAX_TOTAL_NOTE_UPDATE_BYTES: usize = 536870912;

/// The path the vault's records give the note `id`, if they know it.
pub open spec fn spec_note_path_of(note_paths: Seq<(String, String)>, id: Seq<char>) -> Option<Seq<char>>
    decreases note_paths.len(),
{
    if note_paths.len() == 0 {
        None
    } else {
        match spec_note_path_of(note_paths.drop_last(), id) {
            Some(p) => Some(p),
            None => if note_paths.last().0@ == id {
                Some(note_paths.last().1@)
            } else {
                None
            },
        }
    }
}

/// The bytes of new note content in the first `n` rewrites.
pub open spec fn spec_update_bytes(updates: Seq<WorkspaceImageNoteUpdate>, n: int) -> nat
    decreases n,
{
    if n <= 0 {
        0
    } else {
        spec_update_bytes(updates, n - 1) + spec_utf8_len(updates[n - 1].content@)
    }
}

/// Whether an earlier rewrite than the `i`-th names the same note or path.
pub open spec fn spec_earlier_duplicate(updates: Seq<WorkspaceImageNoteUpdate>, i: int) -> bool {
    exists|j: int|
        0 <= j < i && ((#[trigger] updates[j]).note_id@ == updates[i].note_id@ || updates[j].relative_path@
            == updates[i].relative_path@)
}

/// Why the `i`-th rewrite is refused, given that the earlier ones passed.
pub open spec fn spec_note_update_error_at(
    note_paths: Seq<(String, String)>,
    updates: Seq<WorkspaceImageNoteUpdate>,
    label: Seq<char>,
    i: int,
) -> Option<Seq<char>> {
    let u = updates[i];
    match spec_relative_path_error(u.relative_path@, true) {
        Some(e) => Some(e),
        None => if spec_note_path_of(note_paths, u.note_id@) != Some(u.relative_path@) {
            Some("A note path changed before its "@ + label + " reference could be updated."@)
        } else if spec_earlier_duplicate(updates, i) {
            Some("The "@ + label + " move contains a duplicate note update."@)
        } else if spec_utf8_len(u.content@) > MAX_NOTE_UPDATE_BYTES || spec_utf8_len(u.expected_content@)
            > MAX_NOTE_UPDATE_BYTES {
            Some(u.relative_path@ + " is larger than 10 MiB and cannot be updated."@)
        } else if spec_update_bytes(updates, i + 1) > MAX_TOTAL_NOTE_UPDATE_BYTES {
            Some("The "@ + label + " move would update too much note content at once."@)
        } else {
            None
        }
    }
}

/// The first refusal among the first `n` rewrites, in order.
pub open spec fn spec_note_updates_error_upto(
    note_paths: Seq<(String, String)>,
    updates: Seq<WorkspaceImageNoteUpdate>,
    label: Seq<char>,
    n: int,
) -> Option<Seq<char>>
    decreases n,
{
    if n <= 0 {
        None
    } else {
        match spec_note_updates_error_upto(note_paths, updates, label, n - 1) {
            Some(e) => Some(e),
            None => spec_note_update_error_at(note_paths, updates, label, n - 1),
        }
    }
}

/// Why the note rewrites that go with moving an asset (named `label` in
/// messages) are refused, or `None`: at most 100000 of them; each a valid
/// note path that the records give its note; no note or path twice; no
/// note over 10 MiB before or after; at most 512 MiB written in all. The
/// first refused rewrite decides, in order.
pub open spec fn spec_asset_note_updates_error(
    note_paths: Seq<(String, String)>,
    updates: Seq<WorkspaceImageNoteUpdate>,
    label: Seq<char>,
) -> Option<Seq<char>> {
    if updates.len() > MAX_NOTE_UPDATES {
        Some("Only 100000 notes can be updated at once."@)
    } else {
        spec_note_updates_error_upto(note_paths, updates, label, updates.len() as int)
    }
}

fn note_path_of(note_paths: &[(String, String)], id: &str) -> (r: Option<String>)
    ensures
        match r {
            Some(p) => spec_note_path_of(note_paths@, id@) == Some(p@),
            None => spec_note_path_of(note_paths@, id@) is None,
        },
{
    let target = chars_of(id);
    let mut i: usize = 0;
    while i < note_paths.len()
        invariant
            i <= note_paths.len(),
            target@ == id@,
            spec_note_path_of(note_paths@.take(i as int), id@) is None,
        decreases note_paths.len() - i,
    {
        assert(note_paths@.take(i as int + 1).drop_last() == note_paths@.take(i as int));
        if chars_eq(&chars_of(note_paths[i].0.as_str()), &target) {
            proof {
                lemma_note_path_prefix(note_paths@, id@, i as int + 1);
            }
            return Some(owned(note_paths[i].1.as_str()));
        }
        i = i + 1;
    }
    assert(note_paths@.take(note_paths.len() as int) == note_paths@);
    None
}

/// Once a prefix knows a note's path, the whole list gives that path.
proof fn lemma_note_path_prefix(note_paths: Seq<(String, String)>, id: Seq<char>, n: int)
    requires
        0 <= n <= note_paths.len(),
        spec_note_path_of(note_paths.take(n), id) is Some,
    ensures
        spec_note_path_of(note_paths, id) == spec_note_path_of(note_paths.take(n), id),
    decreases note_paths.len() - n,
{
    if n < note_paths.len() {
        assert(note_paths.take(n + 1).drop_last() == note_paths.take(n));
        lemma_note_path_prefix(note_paths, id, n + 1);
    } else {
        assert(note_paths.take(n) == note_paths);
    }
}

fn earlier_duplicate(updates: &[WorkspaceImageNoteUpdate], i: usize) -> (r: bool)
    requires
        i < updates.len(),
    ensures
        r == spec_earlier_duplicate(updates@, i as int),
{
    let id = chars_of(updates[i].note_id.as_str());
    let path = chars_of(updates[i].relative_path.as_str());
    let mut j: usize = 0;
    while j < i
        invariant
            j <= i < updates.len(),
            id@ == updates@[i as int].note_id@,
            path@ == updates@[i as int].relative_path@,
            forall|k: int|
                0 <= k < j ==> !((#[trigger] updates@[k]).note_id@ == updates@[i as int].note_id@
                    || updates@[k].relative_path@ == updates@[i as int].relative_path@),
        decreases i - j,
    {
        if chars_eq(&chars_of(updates[j].note_id.as_str()), &id) || chars_eq(
            &chars_of(updates[j].relative_path.as_str()),
            &path,
        ) {
            return true;
        }
        assert(!(updates@[j as int].note_id@ == updates@[i as int].note_id@
            || updates@[j as int].relative_path@ == updates@[i as int].relative_path@));
        j = j + 1;
    }
    false
}

/// Once a rewrite is refused, no later one changes which refusal is given.
proof fn lemma_error_persists(
    note_paths: Seq<(String, String)>,
    updates: Seq<WorkspaceImageNoteUpdate>,
    label: Seq<char>,
    n: int,
    m: int,
)
    requires
        0 <= n <= m,
        spec_note_updates_error_upto(note_paths, updates, label, n) is Some,
    ensures
        spec_note_updates_error_upto(note_paths, updates, label, m) == spec_note_updates_error_upto(
            note_paths,
            updates,
            label,
            n,
        ),
    decreases m - n,
{
    if m > n {
        lemma_error_persists(note_paths, updates, label, n, m - 1);
    }
}

/// Checks the note rewrites that go with moving an asset, `asset_label`
/// naming it in messages (`image` or `attachment`); `note_paths` pairs each
/// note ID the vault's records know with its path.
pub fn validate_asset_note_updates(
    note_paths: &[(String, String)],
    updates: &[WorkspaceImageNoteUpdate],
    asset_label: &str,
) -> (r: Result<(), String>)
    ensures
        view_result(r) == as_result(spec_asset_note_updates_error(note_paths@, updates@, asset_label@)),
{
    if updates.len() > MAX_NOTE_UPDATES {
        return Err(owned("Only 100000 notes can be updated at once."));
    }
    let label = chars_of(asset_label);
    let mut total: usize = 0;
    let mut i: usize = 0;
    while i < updates.len()
        invariant
            i <= updates.len() <= MAX_NOTE_UPDATES,
            label@ == asset_label@,
            spec_note_updates_error_upto(note_paths@, updates@, asset_label@, i as int) is None,
            total == spec_update_bytes(updates@, i as int),
            total <= MAX_TOTAL_NOTE_UPDATE_BYTES,
        decreases updates.len() - i,
    {
        let u = &updates[i];
        let ghost np = note_paths@;
        let ghost us = updates@;
        let ghost len = updates.len() as int;
        match validate_markdown_relative_path(u.relative_path.as_str()) {
            Err(e) => {
                proof {
                    lemma_error_persists(np, us, asset_label@, i as int + 1, len);
                }
                return Err(e);
            },
            Ok(()) => {},
        }
        let recorded = note_path_of(note_paths, u.note_id.as_str());
        let matches = match &recorded {
            Some(p) => chars_eq(&chars_of(p.as_str()), &chars_of(u.relative_path.as_str())),
            None => false,
        };
        if !matches {
            proof {
                lemma_error_persists(np, us, asset_label@, i as int + 1, len);
            }
            return Err(concat3("A note path changed before its ", &label, " reference could be updated."));
        }
        if earlier_duplicate(updates, i) {
            proof {
                lemma_error_persists(np, us, asset_label@, i as int + 1, len);
            }
            return Err(concat3("The ", &label, " move contains a duplicate note update."));
        }
        let content_bytes = utf8_len_within(&chars_of(u.content.as_str()), MAX_NOTE_UPDATE_BYTES);
        let expected_bytes = utf8_len_within(&chars_of(u.expected_content.as_str()), MAX_NOTE_UPDATE_BYTES);
        let n = match (content_bytes, expected_bytes) {
            (Some(n), Some(_)) => n,
            _ => {
                proof {
                    lemma_error_persists(np, us, asset_label@, i as int + 1, len);
                }
                let mut v = chars_of(u.relative_path.as_str());
                crate::text::extend_chars(&mut v, &chars_of(" is larger than 10 MiB and cannot be updated."));
                return Err(crate::text::string_of(&v));
            },
        };
        assert(spec_update_bytes(us, i as int + 1) == total + n);
        if n > MAX_TOTAL_NOTE_UPDATE_BYTES - total {
            proof {
                lemma_error_persists(np, us, asset_label@, i as int + 1, len);
            }
            return Err(concat3("The ", &label, " move would update too much note content at once."));
        }
        total = total + n;
        i = i + 1;
    }
    Ok(())
}


// ---------------------------------------------------------------------------
// Moving an asset
// ---------------------------------------------------------------------------

/// The maximum number of assets a vault keeps records of.
pub const MAX_TRACKED_ASSETS: usize = 100000;

/// What was found out about a vault before one of its assets is moved.
pub struct RelocationFacts {
    /// The vault's records exist but could not be read.
    pub state_unreadable: bool,
    /// The vault's revision now.
    pub revision: u64,
    /// Reading the asset at its current path, or why that failed.
    pub source: Result<(), String>,
    /// Checking the destination's folder, or why that failed.
    pub destination: Result<(), String>,
    /// The move only changes the letter case of the path.
    pub case_only_rename: bool,
    /// A file already exists at the destination.
    pub target_exists: bool,
    /// The record kept under the asset's ID, if any.
    pub stored: Option<StoredVaultAsset>,
    /// That record points to the asset's current path.
    pub stored_points_to_source: bool,
    /// How many assets the vault keeps records of.
    pub tracked_assets: usize,
    /// Another record of the same kind points to the asset's current path.
    pub another_record_at_source: bool,
    /// Each note ID the records know, with its path.
    pub note_paths: Vec<(String, String)>,
}

pub open spec fn spec_path_error(kind: VaultAssetKind, path: Seq<char>) -> Option<Seq<char>> {
    match kind {
        VaultAssetKind::Image => spec_image_relative_path_error(path),
        VaultAssetKind::Attachment => spec_attachment_relative_path_error(path),
    }
}

pub open spec fn spec_unit_error(r: Result<(), String>) -> Option<Seq<char>> {
    match r {
        Ok(()) => None,
        Err(e) => Some(e@),
    }
}

/// Why the asset of `kind` at `from`, with ID `asset_id`, may not move to
/// `to` with the note rewrites `updates` while the caller last saw
/// `expected_revision`; `None` when the move may go ahead. The checks come
/// in this order: both paths valid for the kind, the paths differ, the ID
/// is valid, the records readable, the vault unchanged, the asset
/// readable, the destination folder usable, nothing at the destination
/// (unless only the letter case changes), the asset's record (of the same
/// kind and at the current path, or, when there is none, room for one and
/// no other record at that path), then the note rewrites.
pub open spec fn spec_asset_relocation_error(
    kind: VaultAssetKind,
    from: Seq<char>,
    to: Seq<char>,
    asset_id: Seq<char>,
    facts: RelocationFacts,
    updates: Seq<WorkspaceImageNoteUpdate>,
    expected_revision: u64,
) -> Option<Seq<char>> {
    let image = kind == VaultAssetKind::Image;
    if spec_path_error(kind, from) is Some {
        spec_path_error(kind, from)
    } else if spec_path_error(kind, to) is Some {
        spec_path_error(kind, to)
    } else if from == to {
        Some(if image { "The image is already at that path."@ } else { "The attachment is already at that path."@ })
    } else if !spec_is_valid_asset_id(asset_id) {
        Some(if image { "The image has an invalid stable ID."@ } else { "The attachment has an invalid stable ID."@ })
    } else if facts.state_unreadable {
        Some(if image {
            "Images cannot be reorganized while workspace metadata is unreadable or newer than this app."@
        } else {
            "Attachments cannot be reorganized while workspace metadata is unreadable or newer than this app."@
        })
    } else if facts.revision != expected_revision {
        Some(if image {
            "The vault changed outside Obsidian At Home. Reload it before moving the image."@
        } else {
            "The vault changed outside Obsidian At Home. Reload it before moving the attachment."@
        })
    } else if facts.source is Err {
        spec_unit_error(facts.source)
    } else if facts.destination is Err {
        spec_unit_error(facts.destination)
    } else if !facts.case_only_rename && facts.target_exists {
        Some("A file named "@ + to + " already exists."@)
    } else {
        match facts.stored {
            Some(stored) => if stored.kind != kind {
                Some(if image {
                    "The stable image record refers to a different file type."@
                } else {
                    "The stable attachment record refers to a different file type."@
                })
            } else if !facts.stored_points_to_source {
                Some(if image {
                    "The stable image record no longer points to that file. Reload the vault."@
                } else {
                    "The stable attachment record no longer points to that file. Reload the vault."@
                })
            } else {
                spec_asset_note_updates_error(facts.note_paths@, updates, if image { "image"@ } else { "attachment"@ })
            },
            None => if facts.tracked_assets >= MAX_TRACKED_ASSETS {
                Some(if image {
                    "This vault already tracks the maximum of 100000 embedded images."@
                } else {
                    "This vault already tracks the maximum of 100000 embedded assets."@
                })
            } else if facts.another_record_at_source {
                Some(if image {
                    "The image's stable record changed. Reload the vault."@
                } else {
                    "The attachment's stable record changed. Reload the vault."@
                })
            } else {
                spec_asset_note_updates_error(facts.note_paths@, updates, if image { "image"@ } else { "attachment"@ })
            },
        }
    }
}

fn validate_asset_path(kind: VaultAssetKind, path: &str) -> (r: Result<(), String>)
    ensures
        view_result(r) == as_result(spec_path_error(kind, path@)),
{
    match kind {
        VaultAssetKind::Image => validate_image_relative_path(path),
        VaultAssetKind::Attachment => validate_attachment_relative_path(path),
    }
}

fn message(image: bool, for_image: &str, for_attachment: &str) -> (r: String)
    ensures
        r@ == if image { for_image@ } else { for_attachment@ },
{
    if image {
        owned(for_image)
    } else {
        owned(for_attachment)
    }
}

fn copy_unit_result(r: &Result<(), String>) -> (c: Result<(), String>)
    ensures
        view_result(c) == as_result(spec_unit_error(*r)),
{
    match r {
        Ok(()) => Ok(()),
        Err(e) => Err(owned(e.as_str())),
    }
}

/// Decides whether an asset may be moved, from what was found out about the
/// vault; the move then goes ahead only on `Ok`.
pub fn plan_asset_relocation(
    kind: VaultAssetKind,
    from: &str,
    to: &str,
    asset_id: &str,
    facts: &RelocationFacts,
    updates: &[WorkspaceImageNoteUpdate],
    expected_revision: u64,
) -> (r: Result<(), String>)
    ensures
        view_result(r) == as_result(
            spec_asset_relocation_error(kind, from@, to@, asset_id@, *facts, updates@, expected_revision),
        ),
{
    let image = match kind {
        VaultAssetKind::Image => true,
        VaultAssetKind::Attachment => false,
    };
    validate_asset_path(kind, from)?;
    validate_asset_path(kind, to)?;
    if chars_eq(&chars_of(from), &chars_of(to)) {
        return Err(message(image, "The image is already at that path.", "The attachment is already at that path."));
    }
    if !is_valid_asset_id(asset_id) {
        return Err(message(image, "The image has an invalid stable ID.", "The attachment has an invalid stable ID."));
    }
    if facts.state_unreadable {
        return Err(message(
            image,
            "Images cannot be reorganized while workspace metadata is unreadable or newer than this app.",
            "Attachments cannot be reorganized while workspace metadata is unreadable or newer than this app.",
        ));
    }
    if facts.revision != expected_revision {
        return Err(message(
            image,
            "The vault changed outside Obsidian At Home. Reload it before moving the image.",
            "The vault changed outside Obsidian At Home. Reload it before moving the attachment.",
        ));
    }
    copy_unit_result(&facts.source)?;
    copy_unit_result(&facts.destination)?;
    if !facts.case_only_rename && facts.target_exists {
        return Err(concat3("A file named ", &chars_of(to), " already exists."));
    }
    match &facts.stored {
        Some(stored) => {
            if stored.kind != kind {
                return Err(message(
                    image,
                    "The stable image record refers to a different file type.",
                    "The stable attachment record refers to a different file type.",
                ));
            }
            if !facts.stored_points_to_source {
                return Err(message(
                    image,
                    "The stable image record no longer points to that file. Reload the vault.",
                    "The stable attachment record no longer points to that file. Reload the vault.",
                ));
            }
        },
        None => {
            if facts.tracked_assets >= MAX_TRACKED_ASSETS {
                return Err(message(
                    image,
                    "This vault already tracks the maximum of 100000 embedded images.",
                    "This vault already tracks the maximum of 100000 embedded assets.",
                ));
            }
            if facts.another_record_at_source {
                return Err(message(
                    image,
                    "The image's stable record changed. Reload the vault.",
                    "The attachment's stable record changed. Reload the vault.",
                ));
            }
        },
    }
    let label = message(image, "image", "attachment");
    validate_asset_note_updates(facts.note_paths.as_slice(), updates, label.as_str())
}

/// Why a prepared move stops before the file moves: the vault changed while
/// it was prepared, or a note no longer holds what its rewrite expects.
pub open spec fn spec_relocation_recheck_error(
    kind: VaultAssetKind,
    expected_revision: u64,
    revision: u64,
    notes_unchanged: bool,
) -> Option<Seq<char>> {
    let image = kind == VaultAssetKind::Image;
    if revision != expected_revision {
        Some(if image {
            "The vault changed while the image move was being prepared. Reload it and try again."@
        } else {
            "The vault changed while the attachment move was being prepared. Reload it and try again."@
        })
    } else if !notes_unchanged {
        Some(if image {
            "A note changed before the image could be moved. Reload the vault and try again."@
        } else {
            "A note changed before the attachment could be moved. Reload the vault and try again."@
        })
    } else {
        None
    }
}

/// Decides, just before the file moves, whether a prepared move still holds.
pub fn recheck_asset_relocation(kind: VaultAssetKind, expected_revision: u64, revision: u64, notes_unchanged: bool) -> (r: Result<(), String>)
    ensures
        view_result(r) == as_result(spec_relocation_recheck_error(kind, expected_revision, revision, notes_unchanged)),
{
    let image = match kind {
        VaultAssetKind::Image => true,
        VaultAssetKind::Attachment => false,
    };
    if revision != expected_revision {
        return Err(message(
            image,
            "The vault changed while the image move was being prepared. Reload it and try again.",
            "The vault changed while the attachment move was being prepared. Reload it and try again.",
        ));
    }
    if !notes_unchanged {
        return Err(message(
            image,
            "A note changed before the image could be moved. Reload the vault and try again.",
            "A note changed before the attachment could be moved. Reload the vault and try again.",
        ));
    }
    Ok(())
}

/// The error reported when a step after the file moved fails: `prefix` and
/// the step's error, then what could not be rolled back, if anything.
pub open spec fn spec_relocation_failure(prefix: Seq<char>, error: Seq<char>, rollback_error: Option<Seq<char>>) -> Seq<char> {
    match rollback_error {
        Some(detail) => prefix + error + " The move could not be fully rolled back: "@ + detail,
        None => prefix + error,
    }
}

/// The error reported when a step after the file moved fails.
pub fn relocation_failure(prefix: &str, error: &str, rollback_error: Option<&str>) -> (r: String)
    ensures
        r@ == spec_relocation_failure(prefix@, error@, match rollback_error {
            Some(d) => Some(d@),
            None => None,
        }),
{
    let mut v = chars_of(prefix);
    crate::text::extend_chars(&mut v, &chars_of(error));
    match rollback_error {
        Some(detail) => {
            crate::text::extend_chars(&mut v, &chars_of(" The move could not be fully rolled back: "));
            crate::text::extend_chars(&mut v, &chars_of(detail));
        },
        None => {},
    }
    crate::text::string_of(&v)
}

/// The records of a vault's assets, by ID; no ID appears twice.
pub open spec fn spec_records_map(records: Seq<(String, StoredVaultAsset)>) -> Map<Seq<char>, StoredVaultAsset>
    decreases records.len(),
{
    if records.len() == 0 {
        Map::empty()
    } else {
        spec_records_map(records.drop_last()).insert(records.last().0@, records.last().1)
    }
}

pub open spec fn spec_distinct_ids(records: Seq<(String, StoredVaultAsset)>) -> bool {
    forall|i: int, j: int| 0 <= i < j < records.len() ==> (#[trigger] records[i]).0@ != (#[trigger] records[j]).0@
}

/// Keeps `record` under `asset_id` after a move: the asset's record now
/// says where it is and what it holds, and every other record stays.
pub fn set_asset_record(records: &mut Vec<(String, StoredVaultAsset)>, asset_id: &str, record: StoredVaultAsset)
    requires
        spec_distinct_ids(old(records)@),
    ensures
        spec_distinct_ids(final(records)@),
        spec_records_map(final(records)@) == spec_records_map(old(records)@).insert(asset_id@, record),
{
    let target = chars_of(asset_id);
    let mut i: usize = 0;
    while i < records.len()
        invariant
            i <= records.len(),
            records@ == old(records)@,
            target@ == asset_id@,
            forall|k: int| 0 <= k < i ==> (#[trigger] records@[k]).0@ != asset_id@,
        decreases records.len() - i,
    {
        if chars_eq(&chars_of(records[i].0.as_str()), &target) {
            let ghost before = records@;
            let id = owned(records[i].0.as_str());
            records.set(i, (id, record));
            proof {
                lemma_records_map_update(before, i as int, records@[i as int]);
            }
            return;
        }
        i = i + 1;
    }
    let ghost before = records@;
    records.push((owned(asset_id), record));
    assert(records@.drop_last() == before);
}

/// Replacing the record at an ID's position replaces that ID's record.
proof fn lemma_records_map_update(records: Seq<(String, StoredVaultAsset)>, i: int, entry: (String, StoredVaultAsset))
    requires
        spec_distinct_ids(records),
        0 <= i < records.len(),
        entry.0@ == records[i].0@,
    ensures
        spec_distinct_ids(records.update(i, entry)),
        spec_records_map(records.update(i, entry)) == spec_records_map(records).insert(entry.0@, entry.1),
    decreases records.len(),
{
    let u = records.update(i, entry);
    assert forall|a: int, b: int| 0 <= a < b < u.len() implies (#[trigger] u[a]).0@ != (#[trigger] u[b]).0@ by {
        assert(u[a].0@ == records[a].0@);
        assert(u[b].0@ == records[b].0@);
    }
    if i == records.len() - 1 {
        assert(u.drop_last() == records.drop_last());
        lemma_records_map_has(records.drop_last(), entry.0@);
        assert(spec_records_map(u) =~= spec_records_map(records).insert(entry.0@, entry.1));
    } else {
        let d = records.drop_last();
        assert forall|a: int, b: int| 0 <= a < b < d.len() implies (#[trigger] d[a]).0@ != (#[trigger] d[b]).0@ by {
            assert(d[a] == records[a]);
            assert(d[b] == records[b]);
        }
        lemma_records_map_update(d, i, entry);
        assert(u.drop_last() == d.update(i, entry));
        assert(u.last() == records.last());
        assert(records.last().0@ != entry.0@);
        assert(spec_records_map(u) =~= spec_records_map(records).insert(entry.0@, entry.1));
    }
}

/// An ID that no record has is not among the map's keys.
proof fn lemma_records_map_has(records: Seq<(String, StoredVaultAsset)>, id: Seq<char>)
    requires
        forall|k: int| 0 <= k < records.len() ==> (#[trigger] records[k]).0@ != id,
    ensures
        !spec_records_map(records).dom().contains(id),
    decreases records.len(),
{
    if records.len() > 0 {
        let d = records.drop_last();
        assert forall|k: int| 0 <= k < d.len() implies (#[trigger] d[k]).0@ != id by {
            assert(d[k] == records[k]);
        }
        lemma_records_map_has(d, id);
        assert(records[records.len() - 1] == records.last());
    }
}


// ---------------------------------------------------------------------------
// Deleting an asset
// ---------------------------------------------------------------------------

/// The most Recently Deleted notes one deletion may rewrite.
pub const MAX_RECOVERY_UPDATES: usize = 100000;

/// What was found out about a vault before one of its assets is deleted.
pub struct DeletionFacts {
    /// The vault's records exist but could not be read.
    pub state_unreadable: bool,
    /// The vault's revision now.
    pub revision: u64,
    /// Where the asset was located (through its ID, when it has one), or
    /// why it could not be.
    pub located: Result<String, String>,
    /// Reading the asset's fingerprint, or why that failed.
    pub fingerprint: Result<(), String>,
    /// Each note ID the records know, with its path.
    pub note_paths: Vec<(String, String)>,
}

/// Whether an earlier recovery rewrite than the `i`-th names the same note.
pub open spec fn spec_earlier_recovery_id(updates: Seq<WorkspaceImageNoteUpdate>, i: int) -> bool {
    exists|j: int| 0 <= j < i && (#[trigger] updates[j]).note_id@ == updates[i].note_id@
}

/// Whether some recovery rewrite repeats the note of an earlier one.
pub open spec fn spec_recovery_ids_repeat(updates: Seq<WorkspaceImageNoteUpdate>) -> bool {
    exists|i: int| 0 <= i < updates.len() && #[trigger] spec_earlier_recovery_id(updates, i)
}

/// Why the asset of `kind` at `path` may not be deleted with the note
/// rewrites `updates` and the Recently Deleted rewrites `recovery`, while
/// the caller last saw `expected_revision`; `None` when the deletion may be
/// prepared further. In order: the path valid for the kind, the records
/// readable, the vault unchanged, the asset located, and at the same path,
/// and readable, the note rewrites, then no more than 100000 recovery
/// rewrites, none naming a note twice.
pub open spec fn spec_asset_deletion_error(
    kind: VaultAssetKind,
    path: Seq<char>,
    facts: DeletionFacts,
    updates: Seq<WorkspaceImageNoteUpdate>,
    recovery: Seq<WorkspaceImageNoteUpdate>,
    expected_revision: u64,
) -> Option<Seq<char>> {
    if spec_path_error(kind, path) is Some {
        spec_path_error(kind, path)
    } else if facts.state_unreadable {
        Some("Files cannot be deleted while workspace metadata is unreadable or newer than this app."@)
    } else if facts.revision != expected_revision {
        Some("The vault changed outside Obsidian At Home. Reload it before deleting the file."@)
    } else {
        match facts.located {
            Err(e) => Some(e@),
            Ok(found) => if found@ != path {
                Some("The file moved. Reload the vault before deleting it."@)
            } else if facts.fingerprint is Err {
                spec_unit_error(facts.fingerprint)
            } else if spec_asset_note_updates_error(facts.note_paths@, updates, "file deletion"@) is Some {
                spec_asset_note_updates_error(facts.note_paths@, updates, "file deletion"@)
            } else if recovery.len() > MAX_RECOVERY_UPDATES {
                Some("Too many recovery snapshots were included in the deletion."@)
            } else if spec_recovery_ids_repeat(recovery) {
                Some("The deletion contains a duplicate recovery update."@)
            } else {
                None
            },
        }
    }
}

fn recovery_ids_repeat(updates: &[WorkspaceImageNoteUpdate]) -> (r: bool)
    ensures
        r == spec_recovery_ids_repeat(updates@),
{
    let mut i: usize = 0;
    while i < updates.len()
        invariant
            i <= updates.len(),
            forall|k: int| 0 <= k < i ==> !#[trigger] spec_earlier_recovery_id(updates@, k),
        decreases updates.len() - i,
    {
        let id = chars_of(updates[i].note_id.as_str());
        let mut j: usize = 0;
        while j < i
            invariant
                j <= i < updates.len(),
                id@ == updates@[i as int].note_id@,
                forall|k: int| 0 <= k < j ==> (#[trigger] updates@[k]).note_id@ != updates@[i as int].note_id@,
            decreases i - j,
        {
            if chars_eq(&chars_of(updates[j].note_id.as_str()), &id) {
                assert(spec_earlier_recovery_id(updates@, i as int));
                return true;
            }
            j = j + 1;
        }
        i = i + 1;
    }
    false
}

/// Decides whether an asset's deletion may be prepared, from what was found
/// out about the vault.
pub fn plan_asset_deletion(
    kind: VaultAssetKind,
    relative_path: &str,
    facts: &DeletionFacts,
    updates: &[WorkspaceImageNoteUpdate],
    recovery: &[WorkspaceImageNoteUpdate],
    expected_revision: u64,
) -> (r: Result<(), String>)
    ensures
        view_result(r) == as_result(
            spec_asset_deletion_error(kind, relative_path@, *facts, updates@, recovery@, expected_revision),
        ),
{
    validate_asset_path(kind, relative_path)?;
    if facts.state_unreadable {
        return Err(owned("Files cannot be deleted while workspace metadata is unreadable or newer than this app."));
    }
    if facts.revision != expected_revision {
        return Err(owned("The vault changed outside Obsidian At Home. Reload it before deleting the file."));
    }
    match &facts.located {
        Err(e) => return Err(owned(e.as_str())),
        Ok(found) => {
            if !chars_eq(&chars_of(found.as_str()), &chars_of(relative_path)) {
                return Err(owned("The file moved. Reload the vault before deleting it."));
            }
        },
    }
    copy_unit_result(&facts.fingerprint)?;
    validate_asset_note_updates(facts.note_paths.as_slice(), updates, "file deletion")?;
    if recovery.len() > MAX_RECOVERY_UPDATES {
        return Err(owned("Too many recovery snapshots were included in the deletion."));
    }
    if recovery_ids_repeat(recovery) {
        return Err(owned("The deletion contains a duplicate recovery update."));
    }
    Ok(())
}


// ---------------------------------------------------------------------------
// Reading the records for a move or an embedding
// ---------------------------------------------------------------------------

/// The position of the first record with ID `id`, or -1.
pub open spec fn spec_record_position(records: Seq<(String, StoredVaultAsset)>, id: Seq<char>, from: int) -> int
    decreases records.len() - from,
{
    if from < 0 || from >= records.len() {
        -1
    } else if records[from].0@ == id {
        from
    } else {
        spec_record_position(records, id, from + 1)
    }
}

/// The position of the first record of `kind` whose path has the key `key`
/// (`keys` giving each record path's key), or -1.
pub open spec fn spec_keyed_position(
    records: Seq<(String, StoredVaultAsset)>,
    keys: Seq<String>,
    kind: VaultAssetKind,
    key: Seq<char>,
    from: int,
) -> int
    decreases records.len() - from,
{
    if from < 0 || from >= records.len() {
        -1
    } else if records[from].1.kind == kind && keys[from]@ == key {
        from
    } else {
        spec_keyed_position(records, keys, kind, key, from + 1)
    }
}

/// The position of the record with ID `asset_id`.
pub fn record_position(records: &[(String, StoredVaultAsset)], asset_id: &str) -> (r: Option<usize>)
    ensures
        match r {
            Some(i) => i as int == spec_record_position(records@, asset_id@, 0),
            None => spec_record_position(records@, asset_id@, 0) == -1,
        },
{
    let id = chars_of(asset_id);
    let mut i: usize = 0;
    while i < records.len()
        invariant
            i <= records.len(),
            id@ == asset_id@,
            spec_record_position(records@, asset_id@, 0) == spec_record_position(records@, asset_id@, i as int),
        decreases records.len() - i,
    {
        if chars_eq(&chars_of(records[i].0.as_str()), &id) {
            return Some(i);
        }
        i = i + 1;
    }
    None
}

/// The position of the first record of `kind` whose path's key is `key`,
/// `keys` giving the key of each record's path.
pub fn keyed_record_position(
    records: &[(String, StoredVaultAsset)],
    keys: &[String],
    kind: VaultAssetKind,
    key: &str,
) -> (r: Option<usize>)
    requires
        keys.len() == records.len(),
    ensures
        match r {
            Some(i) => i as int == spec_keyed_position(records@, keys@, kind, key@, 0),
            None => spec_keyed_position(records@, keys@, kind, key@, 0) == -1,
        },
{
    let k = chars_of(key);
    let mut i: usize = 0;
    while i < records.len()
        invariant
            i <= records.len(),
            keys.len() == records.len(),
            k@ == key@,
            spec_keyed_position(records@, keys@, kind, key@, 0) == spec_keyed_position(
                records@,
                keys@,
                kind,
                key@,
                i as int,
            ),
        decreases records.len() - i,
    {
        if records[i].1.kind == kind && chars_eq(&chars_of(keys[i].as_str()), &k) {
            return Some(i);
        }
        i = i + 1;
    }
    None
}

/// What the records say about an asset about to move: the position of its
/// own record, whether that record points to the asset's current path (by
/// key), how many records there are, and whether, when it has none, another
/// record of its kind points to that path.
#[derive(Debug, Clone, Copy, PartialEq, Eq, Structural)]
pub struct RecordFacts {
    pub stored: Option<usize>,
    pub stored_points_to_source: bool,
    pub tracked_assets: usize,
    pub another_record_at_source: bool,
}

/// What the records say about the asset of `kind` with ID `asset_id` whose
/// current path has the key `source_key`.
pub open spec fn spec_relocation_record_facts(
    records: Seq<(String, StoredVaultAsset)>,
    keys: Seq<String>,
    kind: VaultAssetKind,
    asset_id: Seq<char>,
    source_key: Seq<char>,
) -> RecordFacts {
    let at = spec_record_position(records, asset_id, 0);
    RecordFacts {
        stored: if at >= 0 { Some(at as usize) } else { None },
        stored_points_to_source: at >= 0 && keys[at]@ == source_key,
        tracked_assets: records.len() as usize,
        another_record_at_source: at < 0 && spec_keyed_position(records, keys, kind, source_key, 0) >= 0,
    }
}

/// Reads from the records what deciding a move needs, `keys` giving the
/// vault's key of each record's path and `source_key` that of the asset's
/// current path.
pub fn relocation_facts_from_records(
    records: &[(String, StoredVaultAsset)],
    keys: &[String],
    kind: VaultAssetKind,
    asset_id: &str,
    source_key: &str,
) -> (r: RecordFacts)
    requires
        keys.len() == records.len(),
    ensures
        r == spec_relocation_record_facts(records@, keys@, kind, asset_id@, source_key@),
{
    proof {
        lemma_record_position_bounds(records@, asset_id@, 0);
    }
    match record_position(records, asset_id) {
        Some(i) => RecordFacts {
            stored: Some(i),
            stored_points_to_source: chars_eq(&chars_of(keys[i].as_str()), &chars_of(source_key)),
            tracked_assets: records.len(),
            another_record_at_source: false,
        },
        None => RecordFacts {
            stored: None,
            stored_points_to_source: false,
            tracked_assets: records.len(),
            another_record_at_source: keyed_record_position(records, keys, kind, source_key).is_some(),
        },
    }
}

pub proof fn lemma_record_position_in_range(records: Seq<(String, StoredVaultAsset)>, id: Seq<char>, from: int)
    requires
        0 <= from,
    ensures
        -1 <= spec_record_position(records, id, from) < records.len(),
{
    lemma_record_position_bounds(records, id, from);
}

proof fn lemma_record_position_bounds(records: Seq<(String, StoredVaultAsset)>, id: Seq<char>, from: int)
    requires
        0 <= from,
    ensures
        -1 <= spec_record_position(records, id, from) < records.len(),
        spec_record_position(records, id, from) >= 0 ==> spec_record_position(records, id, from) >= from,
    decreases records.len() - from,
{
    if from < records.len() && records[from].0@ != id {
        lemma_record_position_bounds(records, id, from + 1);
    }
}


/// The ID and stored path of the image record whose path has the key
/// `existing_key`, the record an embedding of that image refreshes.
pub fn existing_image_record(
    records: &[(String, StoredVaultAsset)],
    keys: &[String],
    existing_key: &str,
) -> (r: Option<(String, String)>)
    requires
        keys.len() == records.len(),
    ensures
        ({
            let at = spec_keyed_position(records@, keys@, VaultAssetKind::Image, existing_key@, 0);
            match r {
                Some((id, path)) => at >= 0 && id@ == records@[at].0@ && path@ == records@[at].1.relative_path@,
                None => at == -1,
            }
        }),
{
    proof {
        lemma_keyed_position_bounds(records@, keys@, VaultAssetKind::Image, existing_key@, 0);
    }
    match keyed_record_position(records, keys, VaultAssetKind::Image, existing_key) {
        Some(i) => Some((owned(records[i].0.as_str()), owned(records[i].1.relative_path.as_str()))),
        None => None,
    }
}

proof fn lemma_keyed_position_bounds(
    records: Seq<(String, StoredVaultAsset)>,
    keys: Seq<String>,
    kind: VaultAssetKind,
    key: Seq<char>,
    from: int,
)
    requires
        0 <= from,
    ensures
        -1 <= spec_keyed_position(records, keys, kind, key, from) < records.len(),
    decreases records.len() - from,
{
    if from < records.len() && !(records[from].1.kind == kind && keys[from]@ == key) {
        lemma_keyed_position_bounds(records, keys, kind, key, from + 1);
    }
}


// ---------------------------------------------------------------------------
// The steps of a move
// ---------------------------------------------------------------------------

/// Why a move failed once it began.
#[derive(Debug, Clone, Copy, PartialEq, Eq, Structural)]
pub enum RelocationFailure {
    /// The file could not be moved.
    MoveFailed,
    /// A note rewrite could not be written.
    ReferencesFailed,
    /// The moved file could not be read back.
    VerifyMovedFailed,
    /// The moved attachment does not have the fingerprint it had.
    IntegrityFailed,
    /// The moved attachment could not be inspected.
    InspectFailed,
    /// A rewritten note does not hold its new content.
    NotesNotVerified,
    /// The asset's record could not be written.
    RecordFailed,
}

/// Where a move stands once its checks passed.
#[derive(Debug, Clone, Copy, PartialEq, Eq, Structural)]
pub enum RelocationState {
    MoveFile,
    WriteNote(usize),
    CheckMoved,
    ReadModified,
    VerifyNotes,
    WriteRecord,
    Done,
}

/// What the caller reports after performing an action.
#[derive(Debug, Clone, Copy, PartialEq, Eq, Structural)]
pub enum RelocationEvent {
    /// The step succeeded or failed.
    Step(bool),
    /// A check: `Some(true)` when it holds, `Some(false)` when it does not,
    /// `None` when it could not be made.
    Check(Option<bool>),
}

/// What the caller does next.
#[derive(Debug, Clone, Copy, PartialEq, Eq, Structural)]
pub enum RelocationAction {
    /// Move the file to its new path.
    MoveFile,
    /// Write the note rewrite at this position.
    WriteNote(usize),
    /// Read the moved image back and check it (for an attachment: compare
    /// its fingerprint with the one it had).
    CheckMoved,
    /// Read the moved file's modification time.
    ReadModified,
    /// Check that every rewritten note holds its new content.
    VerifyNotes,
    /// Write the asset's record with its new path.
    WriteRecord,
    /// Fail for this reason; nothing was changed.
    Fail(RelocationFailure),
    /// Move the file back, restore the rewritten notes (those up to and
    /// including the one at `through_note`, or all of them when `None`), and
    /// the records when asked, then fail for this reason.
    RollBackAndFail { failure: RelocationFailure, through_note: Option<usize>, restore_records: bool },
    /// The move is done.
    Finish,
    /// The report does not fit the current step; nothing changes.
    Ignore,
}

pub open spec fn spec_relocation_rollback(failure: RelocationFailure, through_note: Option<usize>, restore: bool) -> (RelocationState, RelocationAction) {
    (RelocationState::Done, RelocationAction::RollBackAndFail { failure, through_note, restore_records: restore })
}

/// The first note rewrite from position `i` on, or the check of the moved
/// file once there are no more.
pub open spec fn spec_next_note(i: int, note_count: usize, kind: VaultAssetKind) -> (RelocationState, RelocationAction) {
    if 0 <= i < note_count {
        (RelocationState::WriteNote(i as usize), RelocationAction::WriteNote(i as usize))
    } else if kind == VaultAssetKind::Image {
        (RelocationState::ReadModified, RelocationAction::ReadModified)
    } else {
        (RelocationState::CheckMoved, RelocationAction::CheckMoved)
    }
}

/// The next state and action of a move of an asset of `kind` with
/// `note_count` note rewrites. A file that cannot be moved fails the move
/// with nothing changed; every later failure moves the file back and
/// restores the notes written so far (and, when the record could not be
/// written, the records).
pub open spec fn spec_relocation_step(
    state: RelocationState,
    kind: VaultAssetKind,
    note_count: usize,
    event: RelocationEvent,
) -> (RelocationState, RelocationAction) {
    match (state, event) {
        (RelocationState::MoveFile, RelocationEvent::Step(ok)) => if ok {
            spec_next_note(0, note_count, kind)
        } else {
            (RelocationState::Done, RelocationAction::Fail(RelocationFailure::MoveFailed))
        },
        (RelocationState::WriteNote(i), RelocationEvent::Step(ok)) => if ok {
            spec_next_note(i + 1, note_count, kind)
        } else {
            spec_relocation_rollback(RelocationFailure::ReferencesFailed, Some(i), false)
        },
        (RelocationState::CheckMoved, RelocationEvent::Check(r)) => match r {
            Some(true) => (RelocationState::ReadModified, RelocationAction::ReadModified),
            Some(false) => spec_relocation_rollback(RelocationFailure::IntegrityFailed, None, false),
            None => spec_relocation_rollback(RelocationFailure::VerifyMovedFailed, None, false),
        },
        (RelocationState::ReadModified, RelocationEvent::Step(ok)) => if ok {
            (RelocationState::VerifyNotes, RelocationAction::VerifyNotes)
        } else if kind == VaultAssetKind::Image {
            spec_relocation_rollback(RelocationFailure::VerifyMovedFailed, None, false)
        } else {
            spec_relocation_rollback(RelocationFailure::InspectFailed, None, false)
        },
        (RelocationState::VerifyNotes, RelocationEvent::Check(r)) => if r == Some(true) {
            (RelocationState::WriteRecord, RelocationAction::WriteRecord)
        } else {
            spec_relocation_rollback(RelocationFailure::NotesNotVerified, None, false)
        },
        (RelocationState::WriteRecord, RelocationEvent::Step(ok)) => if ok {
            (RelocationState::Done, RelocationAction::Finish)
        } else {
            spec_relocation_rollback(RelocationFailure::RecordFailed, None, true)
        },
        _ => (state, RelocationAction::Ignore),
    }
}

/// Where a move starts once its checks passed.
pub fn relocation_start() -> (r: (RelocationState, RelocationAction))
    ensures
        r == (RelocationState::MoveFile, RelocationAction::MoveFile),
{
    (RelocationState::MoveFile, RelocationAction::MoveFile)
}

fn next_note(i: usize, note_count: usize, kind: VaultAssetKind) -> (r: (RelocationState, RelocationAction))
    ensures
        r == spec_next_note(i as int, note_count, kind),
{
    if i < note_count {
        (RelocationState::WriteNote(i), RelocationAction::WriteNote(i))
    } else {
        match kind {
            VaultAssetKind::Image => (RelocationState::ReadModified, RelocationAction::ReadModified),
            VaultAssetKind::Attachment => (RelocationState::CheckMoved, RelocationAction::CheckMoved),
        }
    }
}

fn rollback(failure: RelocationFailure, through_note: Option<usize>, restore: bool) -> (r: (RelocationState, RelocationAction))
    ensures
        r == spec_relocation_rollback(failure, through_note, restore),
{
    (RelocationState::Done, RelocationAction::RollBackAndFail { failure, through_note, restore_records: restore })
}

/// The next state and action of a move after the caller reports `event`.
pub fn relocation_step(
    state: RelocationState,
    kind: VaultAssetKind,
    note_count: usize,
    event: RelocationEvent,
) -> (r: (RelocationState, RelocationAction))
    ensures
        r == spec_relocation_step(state, kind, note_count, event),
{
    match (state, event) {
        (RelocationState::MoveFile, RelocationEvent::Step(ok)) => if ok {
            next_note(0, note_count, kind)
        } else {
            (RelocationState::Done, RelocationAction::Fail(RelocationFailure::MoveFailed))
        },
        (RelocationState::WriteNote(i), RelocationEvent::Step(ok)) => if !ok {
            rollback(RelocationFailure::ReferencesFailed, Some(i), false)
        } else if i < note_count {
            next_note(i + 1, note_count, kind)
        } else {
            next_note(note_count, note_count, kind)
        },
        (RelocationState::CheckMoved, RelocationEvent::Check(r)) => match r {
            Some(true) => (RelocationState::ReadModified, RelocationAction::ReadModified),
            Some(false) => rollback(RelocationFailure::IntegrityFailed, None, false),
            None => rollback(RelocationFailure::VerifyMovedFailed, None, false),
        },
        (RelocationState::ReadModified, RelocationEvent::Step(ok)) => if ok {
            (RelocationState::VerifyNotes, RelocationAction::VerifyNotes)
        } else {
            match kind {
                VaultAssetKind::Image => rollback(RelocationFailure::VerifyMovedFailed, None, false),
                VaultAssetKind::Attachment => rollback(RelocationFailure::InspectFailed, None, false),
            }
        },
        (RelocationState::VerifyNotes, RelocationEvent::Check(r)) => if r == Some(true) {
            (RelocationState::WriteRecord, RelocationAction::WriteRecord)
        } else {
            rollback(RelocationFailure::NotesNotVerified, None, false)
        },
        (RelocationState::WriteRecord, RelocationEvent::Step(ok)) => if ok {
            (RelocationState::Done, RelocationAction::Finish)
        } else {
            rollback(RelocationFailure::RecordFailed, None, true)
        },
        _ => (state, RelocationAction::Ignore),
    }
}

/// The error a failed move reports for an asset of `kind` moved to
/// `target`: the message for its reason around the step's own `error`,
/// then what could not be rolled back, if anything.
pub open spec fn spec_relocation_error(
    kind: VaultAssetKind,
    failure: RelocationFailure,
    target: Seq<char>,
    error: Seq<char>,
    rollback_error: Option<Seq<char>>,
) -> Seq<char> {
    let image = kind == VaultAssetKind::Image;
    let base = match failure {
        RelocationFailure::MoveFailed => (if image { "Could not move the image to "@ } else { "Could not move the attachment to "@ })
            + target + ": "@ + error,
        RelocationFailure::ReferencesFailed => (if image { "Could not update image references: "@ } else {
            "Could not update attachment references: "@
        }) + error,
        RelocationFailure::VerifyMovedFailed => (if image { "Could not verify the moved image: "@ } else {
            "Could not verify the moved attachment: "@
        }) + error,
        RelocationFailure::IntegrityFailed => "The moved attachment failed its integrity check."@,
        RelocationFailure::InspectFailed => "Could not inspect the moved attachment: "@ + error,
        RelocationFailure::NotesNotVerified => "The move could not be verified because "@ + error + "."@,
        RelocationFailure::RecordFailed => (if image { "Could not update the stable image record: "@ } else {
            "Could not update the stable attachment record: "@
        }) + error,
    };
    match rollback_error {
        Some(detail) => base + " The move could not be fully rolled back: "@ + detail,
        None => base,
    }
}

/// The error a failed move reports.
pub fn relocation_error(
    kind: VaultAssetKind,
    failure: RelocationFailure,
    target: &str,
    error: &str,
    rollback_error: Option<&str>,
) -> (r: String)
    ensures
        r@ == spec_relocation_error(kind, failure, target@, error@, match rollback_error {
            Some(d) => Some(d@),
            None => None,
        }),
{
    let image = match kind {
        VaultAssetKind::Image => true,
        VaultAssetKind::Attachment => false,
    };
    let mut v = match failure {
        RelocationFailure::MoveFailed => {
            let mut v = chars_of(message(image, "Could not move the image to ", "Could not move the attachment to ").as_str());
            crate::text::extend_chars(&mut v, &chars_of(target));
            crate::text::extend_chars(&mut v, &chars_of(": "));
            crate::text::extend_chars(&mut v, &chars_of(error));
            v
        },
        RelocationFailure::ReferencesFailed => {
            let mut v = chars_of(
                message(image, "Could not update image references: ", "Could not update attachment references: ").as_str(),
            );
            crate::text::extend_chars(&mut v, &chars_of(error));
            v
        },
        RelocationFailure::VerifyMovedFailed => {
            let mut v = chars_of(
                message(image, "Could not verify the moved image: ", "Could not verify the moved attachment: ").as_str(),
            );
            crate::text::extend_chars(&mut v, &chars_of(error));
            v
        },
        RelocationFailure::IntegrityFailed => chars_of("The moved attachment failed its integrity check."),
        RelocationFailure::InspectFailed => {
            let mut v = chars_of("Could not inspect the moved attachment: ");
            crate::text::extend_chars(&mut v, &chars_of(error));
            v
        },
        RelocationFailure::NotesNotVerified => {
            let mut v = chars_of("The move could not be verified because ");
            crate::text::extend_chars(&mut v, &chars_of(error));
            crate::text::extend_chars(&mut v, &chars_of("."));
            v
        },
        RelocationFailure::RecordFailed => {
            let mut v = chars_of(
                message(
                    image,
                    "Could not update the stable image record: ",
                    "Could not update the stable attachment record: ",
                ).as_str(),
            );
            crate::text::extend_chars(&mut v, &chars_of(error));
            v
        },
    };
    match rollback_error {
        Some(detail) => {
            crate::text::extend_chars(&mut v, &chars_of(" The move could not be fully rolled back: "));
            crate::text::extend_chars(&mut v, &chars_of(detail));
        },
        None => {},
    }
    crate::text::string_of(&v)
}

// ---------------------------------------------------------------------------
// What every move keeps
// ---------------------------------------------------------------------------

/// Whether a report says the step went wrong: a failed step, or a check
/// that does not hold or could not be made.
pub open spec fn spec_relocation_report_fails(event: RelocationEvent) -> bool {
    match event {
        RelocationEvent::Step(ok) => !ok,
        RelocationEvent::Check(r) => r != Some(true),
    }
}

/// The asset's record gets its new path only once every rewritten note was
/// verified to hold its new content.
pub proof fn lemma_record_written_only_after_notes_verified(
    state: RelocationState,
    kind: VaultAssetKind,
    note_count: usize,
    event: RelocationEvent,
)
    ensures
        spec_relocation_step(state, kind, note_count, event).1 == RelocationAction::WriteRecord ==> state
            == RelocationState::VerifyNotes && event == RelocationEvent::Check(Some(true)),
{
}

/// A move is done only after its record was written.
pub proof fn lemma_move_finishes_only_after_record(
    state: RelocationState,
    kind: VaultAssetKind,
    note_count: usize,
    event: RelocationEvent,
)
    ensures
        spec_relocation_step(state, kind, note_count, event).1 == RelocationAction::Finish ==> state
            == RelocationState::WriteRecord && event == RelocationEvent::Step(true),
{
}

/// Once the file was moved, any report that something went wrong moves it
/// back and restores the notes; a move fails with nothing changed only when
/// the file itself could not be moved. A report that goes wrong never moves
/// the move forward.
pub proof fn lemma_failed_reports_roll_the_move_back(
    state: RelocationState,
    kind: VaultAssetKind,
    note_count: usize,
    event: RelocationEvent,
)
    requires
        spec_relocation_report_fails(event),
    ensures
        ({
            let (next, action) = spec_relocation_step(state, kind, note_count, event);
            &&& action is Ignore || action is RollBackAndFail || action is Fail
            &&& action is Fail ==> state == RelocationState::MoveFile
            &&& state != RelocationState::MoveFile ==> !(action is Fail)
            &&& !(action is Ignore) ==> next == RelocationState::Done
        }),
{
}

/// A rewritten note that does not hold its new content, or that could not
/// be checked, fails the move, which is rolled back: every rewritten note
/// is restored and the records are left as they were.
pub proof fn lemma_unverified_notes_roll_back(kind: VaultAssetKind, note_count: usize, r: Option<bool>)
    requires
        r != Some(true),
    ensures
        spec_relocation_step(RelocationState::VerifyNotes, kind, note_count, RelocationEvent::Check(r)) == (
            RelocationState::Done,
            RelocationAction::RollBackAndFail {
                failure: RelocationFailure::NotesNotVerified,
                through_note: None,
                restore_records: false,
            },
        ),
{
}

} // verus!
