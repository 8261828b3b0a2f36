//! The stable records a vault keeps of its images and attachments, and the
//! rules that read them: whether a file still matches its record, whether a
//! note refers to it, and which path a stable ID stands for.
#![verifier::loop_isolation(false)]

use crate::encoding::FileFingerprint;
use crate::model::{WorkspaceExternalAssetDiscardResult, WorkspaceVaultItemKind};
use crate::names::{is_valid_asset_id, spec_is_valid_asset_id};
use crate::text::{chars_of, concat2, find, owned, spec_find};
use crate::warnings::{spec_omitted_note, WarningCollector};
use std::collections::BTreeMap;
use vstd::prelude::*;

verus! {

/// Whether a stored asset is an image or another file.
#[derive(Debug, Clone, Copy, PartialEq, Eq, Structural)]
pub enum VaultAssetKind {
    Image,
    Attachment,
}

impl Default for VaultAssetKind {
    /// Records that do not say their kind are images.
    fn default() -> (r: Self)
        ensures
            r == VaultAssetKind::Image,
    {
        VaultAssetKind::Image
    }
}

/// The stable record of an asset: where it is, its media type, and the
/// fingerprint and modification time it had when last seen.
#[derive(Debug, Clone, PartialEq, Eq)]
pub struct StoredVaultAsset {
    pub kind: VaultAssetKind,
    pub relative_path: String,
    pub media_type: String,
    pub fingerprint: FileFingerprint,
    pub modified_nanos: u64,
}

/// Whether a file is still the one its record describes: the same
/// fingerprint and the same modification time.
pub fn workspace_asset_matches_stored(fingerprint: &FileFingerprint, modified_nanos: u64, stored: &StoredVaultAsset) -> (r: bool)
    ensures
        r == (*fingerprint == stored.fingerprint && modified_nanos == stored.modified_nanos),
{
    fingerprint.length == stored.fingerprint.length && fingerprint.hash == stored.fingerprint.hash
        && modified_nanos == stored.modified_nanos
}

/// The fragment that links a note to an asset by its stable ID.
pub open spec fn spec_reference_fragment(kind: VaultAssetKind, asset_id: Seq<char>) -> Seq<char> {
    match kind {
        VaultAssetKind::Image => "#oah-image="@ + asset_id,
        VaultAssetKind::Attachment => "#oah-asset="@ + asset_id,
    }
}

/// Whether `text` holds `fragment` anywhere.
pub open spec fn spec_mentions(text: Seq<char>, fragment: Seq<char>) -> bool {
    spec_find(text, fragment) is Some
}

/// Whether any of the notes' contents refers to the asset `asset_id` of
/// `kind` through its stable-ID fragment.
pub fn workspace_asset_is_referenced(kind: VaultAssetKind, asset_id: &str, contents: &[String]) -> (r: bool)
    ensures
        r == exists|i: int| 0 <= i < contents@.len() && spec_mentions(#[trigger] contents@[i]@, spec_reference_fragment(kind, asset_id@)),
{
    let fragment = match kind {
        VaultAssetKind::Image => concat2("#oah-image=", &chars_of(asset_id)),
        VaultAssetKind::Attachment => concat2("#oah-asset=", &chars_of(asset_id)),
    };
    let f = chars_of(fragment.as_str());
    let mut i: usize = 0;
    while i < contents.len()
        invariant
            i <= contents.len(),
            f@ == spec_reference_fragment(kind, asset_id@),
            forall|j: int| 0 <= j < i ==> !spec_mentions(#[trigger] contents@[j]@, f@),
        decreases contents.len() - i,
    {
        if find(&chars_of(contents[i].as_str()), &f).is_some() {
            return true;
        }
        i = i + 1;
    }
    false
}

/// The outcome of a cleanup that kept a dropped file: nothing discarded,
/// the note paths as they are, and the warnings gathered.
pub fn retained_external_asset_result(note_paths: BTreeMap<String, String>, revision: u64, saved_at: u64, warnings: WarningCollector) -> (r: WorkspaceExternalAssetDiscardResult)
    requires
        warnings.wf(),
    ensures
        !r.discarded,
        r.note_paths == note_paths,
        r.revision == revision,
        r.saved_at == saved_at,
        warnings.truncated ==> crate::frontmatter::strings_view(r.warnings@) == warnings.view_warnings().push(spec_omitted_note()),
        !warnings.truncated ==> r.warnings@ == warnings.warnings@,
{
    WorkspaceExternalAssetDiscardResult {
        discarded: false,
        note_paths,
        revision,
        saved_at,
        warnings: warnings.finish(),
    }
}

/// What the workspace state says of a stable asset ID.
#[derive(Debug, Clone, PartialEq, Eq)]
pub enum StoredAssetLookup {
    /// A state file exists but cannot be read by this app.
    StateUnreadable,
    /// There is no state file.
    StateMissing,
    /// The state has no record under the ID.
    NotFound,
    /// The state records an asset of this kind at this path.
    Found(VaultAssetKind, String),
}

/// The vault path a vault item is located by: its own path when it has no
/// stable ID, otherwise the path its record gives, when the ID is valid,
/// the item is an image or attachment, and the record is of that kind.
pub open spec fn spec_resolve_vault_asset_relative_path(kind: WorkspaceVaultItemKind, relative_path: Seq<char>, asset_id: Option<Seq<char>>, lookup: StoredAssetLookup) -> Result<Seq<char>, Seq<char>> {
    match asset_id {
        None => Ok(relative_path),
        Some(id) => if !spec_is_valid_asset_id(id) {
            Err("The vault item has an invalid stable ID."@)
        } else if kind != WorkspaceVaultItemKind::Image && kind != WorkspaceVaultItemKind::Attachment {
            Err("Only images and attachments use stable asset IDs."@)
        } else {
            let expected = if kind == WorkspaceVaultItemKind::Image {
                VaultAssetKind::Image
            } else {
                VaultAssetKind::Attachment
            };
            match lookup {
                StoredAssetLookup::StateUnreadable => Err(
                    "The vault item cannot be located while workspace metadata is unreadable or newer than this app."@,
                ),
                StoredAssetLookup::StateMissing => Err("The vault item no longer has a stable record."@),
                StoredAssetLookup::NotFound => Err("The vault item no longer has a stable record."@),
                StoredAssetLookup::Found(k, p) => if k != expected {
                    Err("The stable record refers to a different vault item type."@)
                } else {
                    Ok(p@)
                },
            }
        },
    }
}

/// The vault path a vault item is located by. `lookup` is what the
/// workspace state records under `asset_id`.
pub fn resolve_vault_asset_relative_path(kind: WorkspaceVaultItemKind, relative_path: &str, asset_id: Option<&str>, lookup: &StoredAssetLookup) -> (r: Result<String, String>)
    ensures
        crate::vault_paths::view_string_result(r) == spec_resolve_vault_asset_relative_path(
            kind,
            relative_path@,
            match asset_id {
                Some(a) => Some(a@),
                None => None,
            },
            *lookup,
        ),
{
    let id = match asset_id {
        None => return Ok(owned(relative_path)),
        Some(id) => id,
    };
    if !is_valid_asset_id(id) {
        return Err(owned("The vault item has an invalid stable ID."));
    }
    let expected = match kind {
        WorkspaceVaultItemKind::Image => VaultAssetKind::Image,
        WorkspaceVaultItemKind::Attachment => VaultAssetKind::Attachment,
        _ => return Err(owned("Only images and attachments use stable asset IDs.")),
    };
    match lookup {
        StoredAssetLookup::StateUnreadable => Err(owned(
            "The vault item cannot be located while workspace metadata is unreadable or newer than this app.",
        )),
        StoredAssetLookup::StateMissing => Err(owned("The vault item no longer has a stable record.")),
        StoredAssetLookup::NotFound => Err(owned("The vault item no longer has a stable record.")),
        StoredAssetLookup::Found(k, p) => if *k != expected {
            Err(owned("The stable record refers to a different vault item type."))
        } else {
            Ok(owned(p.as_str()))
        },
    }
}


// ---------------------------------------------------------------------------
// Finding assets that moved
// ---------------------------------------------------------------------------

/// A file met while searching the vault for moved assets: its fingerprint,
/// its path, its media type and its modification time.
#[derive(Debug, Clone, PartialEq, Eq)]
pub struct AssetCandidate {
    pub fingerprint: FileFingerprint,
    pub relative_path: String,
    pub media_type: String,
    pub modified_nanos: u64,
}

/// An asset record whose file is no longer where the record says.
#[derive(Debug, Clone, PartialEq, Eq)]
pub struct MissingAsset {
    pub id: String,
    pub fingerprint: FileFingerprint,
    pub relative_path: String,
}

/// What became of a missing asset: found at a new place, or not, with the
/// warning that says so.
#[derive(Debug, Clone, PartialEq, Eq)]
pub enum RelinkOutcome {
    Relinked { relative_path: String, media_type: String, modified_nanos: u64 },
    Unresolved(String),
}

/// What became of a missing asset, as the rules read it.
pub enum RelinkView {
    Relinked(Seq<char>, Seq<char>, u64),
    Unresolved(Seq<char>),
}

pub open spec fn relink_view(o: RelinkOutcome) -> RelinkView {
    match o {
        RelinkOutcome::Relinked { relative_path, media_type, modified_nanos } => RelinkView::Relinked(relative_path@, media_type@, modified_nanos),
        RelinkOutcome::Unresolved(w) => RelinkView::Unresolved(w@),
    }
}

/// The candidates whose contents have fingerprint `fp`, in the order found.
pub open spec fn spec_matching(cands: Seq<AssetCandidate>, fp: FileFingerprint) -> Seq<AssetCandidate>
    decreases cands.len(),
{
    if cands.len() == 0 {
        Seq::empty()
    } else if cands.last().fingerprint == fp {
        spec_matching(cands.drop_last(), fp).push(cands.last())
    } else {
        spec_matching(cands.drop_last(), fp)
    }
}

pub open spec fn spec_kind_label(kind: VaultAssetKind) -> Seq<char> {
    match kind {
        VaultAssetKind::Image => "image"@,
        VaultAssetKind::Attachment => "attachment"@,
    }
}

/// What becomes of one missing asset when the fingerprints in `used` were
/// already given to earlier ones: it moves to the single candidate with its
/// fingerprint, or it stays missing with a warning when there is none (or
/// it was taken) or more than one.
pub open spec fn spec_relink_one(kind: VaultAssetKind, m: MissingAsset, cands: Seq<AssetCandidate>, used: Set<FileFingerprint>) -> RelinkView {
    let found = spec_matching(cands, m.fingerprint);
    if used.contains(m.fingerprint) || found.len() == 0 {
        RelinkView::Unresolved("Could not find the embedded "@ + spec_kind_label(kind) + " "@ + m.relative_path@ + "."@)
    } else if found.len() != 1 {
        RelinkView::Unresolved("Could not uniquely locate the moved embedded "@ + spec_kind_label(kind) + " "@ + m.relative_path@ + "."@)
    } else {
        RelinkView::Relinked(found[0].relative_path@, found[0].media_type@, found[0].modified_nanos)
    }
}

/// The fingerprints given to the first `n` missing assets.
pub open spec fn spec_used_fingerprints(kind: VaultAssetKind, missing: Seq<MissingAsset>, cands: Seq<AssetCandidate>, n: int) -> Set<FileFingerprint>
    decreases n,
{
    if n <= 0 {
        Set::empty()
    } else {
        let used = spec_used_fingerprints(kind, missing, cands, n - 1);
        match spec_relink_one(kind, missing[n - 1], cands, used) {
            RelinkView::Relinked(_, _, _) => used.insert(missing[n - 1].fingerprint),
            RelinkView::Unresolved(_) => used,
        }
    }
}

fn count_matching(cands: &[AssetCandidate], fp: &FileFingerprint) -> (r: (usize, Option<usize>))
    ensures
        r.0 == spec_matching(cands@, *fp).len(),
        r.0 > 0 ==> (r.1 matches Some(i) && i < cands@.len() && cands@[i as int] == spec_matching(cands@, *fp)[0]),
{
    let mut count: usize = 0;
    let mut first: Option<usize> = None;
    let mut i: usize = 0;
    while i < cands.len()
        invariant
            i <= cands.len(),
            count == spec_matching(cands@.take(i as int), *fp).len(),
            count <= i,
            count > 0 ==> (first matches Some(f) && f < cands@.len() && cands@[f as int] == spec_matching(cands@.take(i as int), *fp)[0]),
        decreases cands.len() - i,
    {
        assert(cands@.take(i as int + 1).drop_last() == cands@.take(i as int));
        assert(cands@.take(i as int + 1).last() == cands@[i as int]);
        if cands[i].fingerprint == *fp {
            if count == 0 {
                first = Some(i);
            }
            count = count + 1;
        }
        i = i + 1;
    }
    assert(cands@.take(cands@.len() as int) == cands@);
    (count, first)
}

fn fingerprint_in(list: &[FileFingerprint], fp: &FileFingerprint) -> (r: bool)
    ensures
        r == list@.contains(*fp),
{
    let mut i: usize = 0;
    while i < list.len()
        invariant
            i <= list.len(),
            forall|j: int| 0 <= j < i ==> list@[j] != *fp,
        decreases list.len() - i,
    {
        if list[i] == *fp {
            assert(list@[i as int] == *fp);
            return true;
        }
        i = i + 1;
    }
    false
}

/// What becomes of each missing asset, in order, given the files found in
/// the vault: each moves to the single unclaimed file with its fingerprint,
/// and a fingerprint once claimed is not given again.
pub fn relink_moved_assets(kind: VaultAssetKind, missing: &[MissingAsset], candidates: &[AssetCandidate]) -> (r: Vec<RelinkOutcome>)
    ensures
        r@.len() == missing@.len(),
        forall|i: int| 0 <= i < r@.len() ==> relink_view(#[trigger] r@[i]) == spec_relink_one(
            kind,
            missing@[i],
            candidates@,
            spec_used_fingerprints(kind, missing@, candidates@, i),
        ),
{
    let mut outcomes: Vec<RelinkOutcome> = Vec::new();
    let mut used: Vec<FileFingerprint> = Vec::new();
    let label = match kind {
        VaultAssetKind::Image => "image",
        VaultAssetKind::Attachment => "attachment",
    };
    assert(label@ == spec_kind_label(kind));
    let mut i: usize = 0;
    while i < missing.len()
        invariant
            i <= missing.len(),
            outcomes@.len() == i,
            label@ == spec_kind_label(kind),
            used@.to_set() == spec_used_fingerprints(kind, missing@, candidates@, i as int),
            forall|j: int| 0 <= j < i ==> relink_view(#[trigger] outcomes@[j]) == spec_relink_one(
                kind,
                missing@[j],
                candidates@,
                spec_used_fingerprints(kind, missing@, candidates@, j),
            ),
        decreases missing.len() - i,
    {
        let m = &missing[i];
        let ghost used_set = spec_used_fingerprints(kind, missing@, candidates@, i as int);
        let taken = fingerprint_in(&used, &m.fingerprint);
        assert(taken == used_set.contains(m.fingerprint)) by {
            assert(used@.to_set().contains(m.fingerprint) == used@.contains(m.fingerprint));
        }
        let (count, first) = count_matching(candidates, &m.fingerprint);
        let outcome = if taken || count == 0 {
            let mut v = chars_of("Could not find the embedded ");
            crate::text::extend_chars(&mut v, &chars_of(label));
            v.push(' ');
            crate::text::extend_chars(&mut v, &chars_of(m.relative_path.as_str()));
            v.push('.');
            let w = crate::text::string_of(&v);
            proof {
                reveal_strlit(".");
                reveal_strlit(" ");
            }
            assert(w@ =~= "Could not find the embedded "@ + spec_kind_label(kind) + " "@ + m.relative_path@ + "."@);
            RelinkOutcome::Unresolved(w)
        } else if count != 1 {
            let mut v = chars_of("Could not uniquely locate the moved embedded ");
            crate::text::extend_chars(&mut v, &chars_of(label));
            v.push(' ');
            crate::text::extend_chars(&mut v, &chars_of(m.relative_path.as_str()));
            v.push('.');
            let w = crate::text::string_of(&v);
            proof {
                reveal_strlit(".");
                reveal_strlit(" ");
            }
            assert(w@ =~= "Could not uniquely locate the moved embedded "@ + spec_kind_label(kind) + " "@ + m.relative_path@ + "."@);
            RelinkOutcome::Unresolved(w)
        } else {
            let f = match first {
                Some(f) => f,
                None => 0,
            };
            let c = &candidates[f];
            let ghost before = used@;
            used.push(m.fingerprint);
            assert forall|x: FileFingerprint| used@.contains(x) <==> (before.contains(x) || x == m.fingerprint) by {
                if before.contains(x) {
                    let j = choose|j: int| 0 <= j < before.len() && before[j] == x;
                    assert(used@[j] == x);
                }
                if x == m.fingerprint {
                    assert(used@[before.len() as int] == x);
                }
                if used@.contains(x) {
                    let j = choose|j: int| 0 <= j < used@.len() && used@[j] == x;
                    if j < before.len() {
                        assert(before[j] == x);
                    }
                }
            }
            assert(used@.to_set() =~= before.to_set().insert(m.fingerprint));
            RelinkOutcome::Relinked {
                relative_path: owned(c.relative_path.as_str()),
                media_type: owned(c.media_type.as_str()),
                modified_nanos: c.modified_nanos,
            }
        };
        outcomes.push(outcome);
        i = i + 1;
    }
    outcomes
}


proof fn lemma_used_grows(kind: VaultAssetKind, missing: Seq<MissingAsset>, cands: Seq<AssetCandidate>, a: int, b: int)
    requires
        0 <= a <= b,
    ensures
        spec_used_fingerprints(kind, missing, cands, a).subset_of(spec_used_fingerprints(kind, missing, cands, b)),
    decreases b - a,
{
    if a < b {
        lemma_used_grows(kind, missing, cands, a, b - 1);
    }
}

/// No fingerprint is given to two missing assets: when two of them are
/// relinked, they had different contents and so move to different files.
pub proof fn lemma_relinks_are_distinct(kind: VaultAssetKind, missing: Seq<MissingAsset>, cands: Seq<AssetCandidate>, i: int, j: int)
    requires
        0 <= i < j < missing.len(),
        spec_relink_one(kind, missing[i], cands, spec_used_fingerprints(kind, missing, cands, i)) is Relinked,
        spec_relink_one(kind, missing[j], cands, spec_used_fingerprints(kind, missing, cands, j)) is Relinked,
    ensures
        missing[i].fingerprint != missing[j].fingerprint,
{
    lemma_used_grows(kind, missing, cands, i + 1, j);
    assert(spec_used_fingerprints(kind, missing, cands, i + 1).contains(missing[i].fingerprint));
}


/// Whether an image's record can be trusted without reading the file: it
/// has a modification time, the file still has it and the recorded length,
/// and the path's extension still gives the recorded media type.
pub open spec fn spec_image_record_is_current(stored: StoredVaultAsset, length: u64, modified_nanos: u64) -> bool {
    &&& stored.modified_nanos != 0
    &&& stored.modified_nanos == modified_nanos
    &&& stored.fingerprint.length == length
    &&& match crate::paths::spec_extension(stored.relative_path@) {
        Some(e) => crate::media::spec_image_media_type(e) == Some(stored.media_type@),
        None => false,
    }
}

/// Whether an image's record can be trusted without reading the file,
/// given the file's length and modification time.
pub fn image_record_is_current(stored: &StoredVaultAsset, length: u64, modified_nanos: u64) -> (r: bool)
    ensures
        r == spec_image_record_is_current(*stored, length, modified_nanos),
{
    if stored.modified_nanos == 0 || stored.modified_nanos != modified_nanos || stored.fingerprint.length != length {
        return false;
    }
    match crate::paths::extension(&chars_of(stored.relative_path.as_str())) {
        None => false,
        Some(e) => match crate::media::image_media_type_for_extension_chars(&e) {
            None => false,
            Some(m) => crate::text::chars_eq(&chars_of(m), &chars_of(stored.media_type.as_str())),
        },
    }
}

/// Whether an attachment's record can be trusted without reading the file:
/// as for images, with the media type its extension gives.
pub open spec fn spec_attachment_record_is_current(stored: StoredVaultAsset, length: u64, modified_nanos: u64) -> bool {
    &&& stored.modified_nanos != 0
    &&& stored.modified_nanos == modified_nanos
    &&& stored.fingerprint.length == length
    &&& stored.media_type@ == crate::attachments::spec_attachment_media_type(stored.relative_path@)
}

/// Whether an attachment's record can be trusted without reading the file,
/// given the file's length and modification time.
pub fn attachment_record_is_current(stored: &StoredVaultAsset, length: u64, modified_nanos: u64) -> (r: bool)
    ensures
        r == spec_attachment_record_is_current(*stored, length, modified_nanos),
{
    if stored.modified_nanos == 0 || stored.modified_nanos != modified_nanos || stored.fingerprint.length != length {
        return false;
    }
    let expected = crate::attachments::attachment_media_type_for_path(stored.relative_path.as_str());
    crate::text::chars_eq(&chars_of(expected), &chars_of(stored.media_type.as_str()))
}

} // verus!
