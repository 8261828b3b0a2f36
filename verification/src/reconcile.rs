//! Bringing a vault's asset records up to date when it is opened: which
//! records are kept, which files still match their records, which need to
//! be read again, and which files may be a missing asset that moved.
#![verifier::loop_isolation(false)]

use crate::asset_moves::{record_position, spec_record_position};
use crate::assets::{RelinkOutcome, StoredVaultAsset, VaultAssetKind};
use crate::model::{EmbeddedAttachment, EmbeddedImage};
use crate::encoding::{fingerprint_bytes, spec_fnv, FNV_OFFSET_BASIS};
use crate::media::{spec_validate_image_bytes, validate_image_bytes_impl, MAX_ATTACHMENT_BYTES};
use crate::names::{is_valid_asset_id, spec_is_valid_asset_id};
use crate::rules::MAX_VAULT_ASSETS;
use crate::text::{chars_of, owned};
use crate::workspace_paths::{
    spec_attachment_relative_path_error, spec_image_relative_path_error, validate_attachment_relative_path,
    validate_image_relative_path,
};
use vstd::prelude::*;

verus! {

/// Whether a record names a valid ID and a path valid for its kind.
pub open spec fn spec_record_is_valid(id: Seq<char>, record: StoredVaultAsset) -> bool {
    &&& spec_is_valid_asset_id(id)
    &&& match record.kind {
        VaultAssetKind::Image => spec_image_relative_path_error(record.relative_path@) is None,
        VaultAssetKind::Attachment => spec_attachment_relative_path_error(record.relative_path@) is None,
    }
}

/// How many of the first `n` records are not for system metadata files.
pub open spec fn spec_rank(metadata: Seq<bool>, n: int) -> nat
    decreases n,
{
    if n <= 0 {
        0
    } else {
        spec_rank(metadata, n - 1) + if metadata[n - 1] { 0nat } else { 1nat }
    }
}

/// Whether the `i`-th record (in ID order) is kept: it is not for a system
/// metadata file, it is among the first 100000 such records, and it is valid.
pub open spec fn spec_keeps_record(records: Seq<(String, StoredVaultAsset)>, metadata: Seq<bool>, i: int) -> bool {
    &&& !metadata[i]
    &&& spec_rank(metadata, i) < MAX_VAULT_ASSETS
    &&& spec_record_is_valid(records[i].0@, records[i].1)
}

/// How many of the first `n` records are dropped for being invalid.
pub open spec fn spec_invalid_count(records: Seq<(String, StoredVaultAsset)>, metadata: Seq<bool>, n: int) -> nat
    decreases n,
{
    if n <= 0 {
        0
    } else {
        spec_invalid_count(records, metadata, n - 1) + if !metadata[n - 1] && spec_rank(metadata, n - 1)
            < MAX_VAULT_ASSETS && !spec_record_is_valid(records[n - 1].0@, records[n - 1].1) {
            1nat
        } else {
            0nat
        }
    }
}

pub open spec fn spec_limit_warning() -> Seq<char> {
    "Only the first 100000 embedded image records were loaded."@
}

pub open spec fn spec_invalid_warning() -> Seq<char> {
    "Ignored an invalid embedded image record."@
}

/// The warnings given while screening: one when more records than allowed
/// were kept, then one for each invalid record dropped.
pub open spec fn spec_screening_warnings(records: Seq<(String, StoredVaultAsset)>, metadata: Seq<bool>) -> Seq<Seq<char>> {
    (if spec_rank(metadata, records.len() as int) > MAX_VAULT_ASSETS {
        seq![spec_limit_warning()]
    } else {
        Seq::empty()
    }) + Seq::new(spec_invalid_count(records, metadata, records.len() as int), |k: int| spec_invalid_warning())
}

fn record_is_valid(id: &str, record: &StoredVaultAsset) -> (r: bool)
    ensures
        r == spec_record_is_valid(id@, *record),
{
    if !is_valid_asset_id(id) {
        return false;
    }
    match record.kind {
        VaultAssetKind::Image => validate_image_relative_path(record.relative_path.as_str()).is_ok(),
        VaultAssetKind::Attachment => validate_attachment_relative_path(record.relative_path.as_str()).is_ok(),
    }
}

/// Screens a vault's asset records, given in ID order, with `metadata`
/// telling which are for system metadata files: which records are kept,
/// and the warnings for those left out.
pub fn screen_asset_records(records: &[(String, StoredVaultAsset)], metadata: &[bool]) -> (r: (Vec<bool>, Vec<String>))
    requires
        metadata.len() == records.len(),
    ensures
        r.0@.len() == records.len(),
        forall|i: int| 0 <= i < records.len() ==> r.0@[i] == spec_keeps_record(records@, metadata@, i),
        crate::frontmatter::strings_view(r.1@) == spec_screening_warnings(records@, metadata@),
{
    let mut keep: Vec<bool> = Vec::new();
    let mut rank: usize = 0;
    let mut invalid: usize = 0;
    let mut i: usize = 0;
    while i < records.len()
        invariant
            metadata.len() == records.len(),
            i <= records.len(),
            keep@.len() == i,
            rank == spec_rank(metadata@, i as int),
            invalid == spec_invalid_count(records@, metadata@, i as int),
            rank <= i,
            invalid <= i,
            forall|k: int| 0 <= k < i ==> keep@[k] == spec_keeps_record(records@, metadata@, k),
        decreases records.len() - i,
    {
        if metadata[i] {
            keep.push(false);
        } else {
            let valid = record_is_valid(records[i].0.as_str(), &records[i].1);
            if rank < MAX_VAULT_ASSETS && !valid {
                invalid = invalid + 1;
            }
            keep.push(rank < MAX_VAULT_ASSETS && valid);
            rank = rank + 1;
        }
        i = i + 1;
    }
    let mut warnings: Vec<String> = Vec::new();
    if rank > MAX_VAULT_ASSETS {
        warnings.push(owned("Only the first 100000 embedded image records were loaded."));
    }
    let ghost head = crate::frontmatter::strings_view(warnings@);
    let mut k: usize = 0;
    while k < invalid
        invariant
            k <= invalid,
            crate::frontmatter::strings_view(warnings@) == head + Seq::new(k as nat, |j: int| spec_invalid_warning()),
        decreases invalid - k,
    {
        let ghost before = crate::frontmatter::strings_view(warnings@);
        warnings.push(owned("Ignored an invalid embedded image record."));
        assert(crate::frontmatter::strings_view(warnings@) =~= before.push(spec_invalid_warning()));
        assert(head + Seq::new((k + 1) as nat, |j: int| spec_invalid_warning()) =~= (head + Seq::new(
            k as nat,
            |j: int| spec_invalid_warning(),
        )).push(spec_invalid_warning()));
        k = k + 1;
    }
    assert(head =~= (if spec_rank(metadata@, records.len() as int) > MAX_VAULT_ASSETS {
        seq![spec_limit_warning()]
    } else {
        Seq::empty()
    }));
    (keep, warnings)
}

/// What a record's file is found to be when the vault is opened.
#[derive(Debug, Clone, Copy, PartialEq, Eq, Structural)]
pub enum RecordStatus {
    /// The file still matches the record; nothing is read.
    Current,
    /// The file is there but must be read to refresh the record.
    Reread,
    /// No usable file is at the record's path.
    Missing,
}

/// The status of an image record, given the length and modification time
/// of the regular file at its path, or `None` when there is none.
pub open spec fn spec_image_record_status(stored: StoredVaultAsset, probe: Option<(u64, u64)>) -> RecordStatus {
    match probe {
        None => RecordStatus::Missing,
        Some((length, nanos)) => if crate::assets::spec_image_record_is_current(stored, length, nanos) {
            RecordStatus::Current
        } else {
            RecordStatus::Reread
        },
    }
}

/// The status of an image record.
pub fn image_record_status(stored: &StoredVaultAsset, probe: Option<(u64, u64)>) -> (r: RecordStatus)
    ensures
        r == spec_image_record_status(*stored, probe),
{
    match probe {
        None => RecordStatus::Missing,
        Some((length, nanos)) => if crate::assets::image_record_is_current(stored, length, nanos) {
            RecordStatus::Current
        } else {
            RecordStatus::Reread
        },
    }
}

/// The status of an attachment record: as for images, and a file over the
/// attachment size limit counts as missing.
pub open spec fn spec_attachment_record_status(stored: StoredVaultAsset, probe: Option<(u64, u64)>) -> RecordStatus {
    match probe {
        None => RecordStatus::Missing,
        Some((length, nanos)) => if length > MAX_ATTACHMENT_BYTES {
            RecordStatus::Missing
        } else if crate::assets::spec_attachment_record_is_current(stored, length, nanos) {
            RecordStatus::Current
        } else {
            RecordStatus::Reread
        },
    }
}

/// The status of an attachment record.
pub fn attachment_record_status(stored: &StoredVaultAsset, probe: Option<(u64, u64)>) -> (r: RecordStatus)
    ensures
        r == spec_attachment_record_status(*stored, probe),
{
    match probe {
        None => RecordStatus::Missing,
        Some((length, nanos)) => if length > MAX_ATTACHMENT_BYTES {
            RecordStatus::Missing
        } else if crate::assets::attachment_record_is_current(stored, length, nanos) {
            RecordStatus::Current
        } else {
            RecordStatus::Reread
        },
    }
}

/// An image record refreshed from the bytes now at its path, read with the
/// given modification time, or `None` (the image is missing) when the bytes
/// are not a valid image for that path. Its kind and path stay.
pub fn refresh_image_record(stored: &StoredVaultAsset, bytes: &[u8], modified_nanos: u64) -> (r: Option<StoredVaultAsset>)
    ensures
        match r {
            Some(n) => spec_validate_image_bytes(bytes@, Some(stored.relative_path@)) is Ok
                && n.media_type@ == spec_validate_image_bytes(bytes@, Some(stored.relative_path@))->Ok_0.0
                && n.kind == stored.kind && n.relative_path@ == stored.relative_path@
                && n.fingerprint.length == bytes@.len() && n.fingerprint.hash == spec_fnv(FNV_OFFSET_BASIS, bytes@)
                && n.modified_nanos == modified_nanos,
            None => spec_validate_image_bytes(bytes@, Some(stored.relative_path@)) is Err,
        },
{
    match validate_image_bytes_impl(bytes, Some(stored.relative_path.as_str())) {
        Err(_) => None,
        Ok((media_type, _)) => Some(StoredVaultAsset {
            kind: stored.kind,
            relative_path: owned(stored.relative_path.as_str()),
            media_type: owned(media_type),
            fingerprint: fingerprint_bytes(bytes),
            modified_nanos,
        }),
    }
}

/// An attachment record refreshed from the fingerprint of the file now at
/// its path: the media type its path gives, that fingerprint, and the
/// file's modification time. Its kind and path stay.
pub fn refresh_attachment_record(stored: &StoredVaultAsset, fingerprint: crate::encoding::FileFingerprint, modified_nanos: u64) -> (r: StoredVaultAsset)
    ensures
        r.kind == stored.kind,
        r.relative_path@ == stored.relative_path@,
        r.media_type@ == crate::attachments::spec_attachment_media_type(stored.relative_path@),
        r.fingerprint == fingerprint,
        r.modified_nanos == modified_nanos,
{
    StoredVaultAsset {
        kind: stored.kind,
        relative_path: owned(stored.relative_path.as_str()),
        media_type: owned(crate::attachments::attachment_media_type_for_path(stored.relative_path.as_str())),
        fingerprint,
        modified_nanos,
    }
}

/// Whether a file met while searching the vault may be a missing asset of
/// `kind` that moved: its path (written with `/`) is known, no kept record
/// already claims it, it is a valid path for the kind, and its length is
/// that of some missing asset.
pub open spec fn spec_is_relink_candidate(
    kind: VaultAssetKind,
    relative_path: Option<Seq<char>>,
    claimed: bool,
    length: u64,
    missing_lengths: Seq<u64>,
) -> bool {
    &&& relative_path is Some
    &&& !claimed
    &&& match kind {
        VaultAssetKind::Image => spec_image_relative_path_error(relative_path->Some_0) is None,
        VaultAssetKind::Attachment => spec_attachment_relative_path_error(relative_path->Some_0) is None,
    }
    &&& missing_lengths.contains(length)
}

/// Whether a file met while searching the vault may be a missing asset that
/// moved, and so is read.
pub fn is_relink_candidate(
    kind: VaultAssetKind,
    relative_path: Option<&str>,
    claimed: bool,
    length: u64,
    missing_lengths: &[u64],
) -> (r: bool)
    ensures
        r == spec_is_relink_candidate(
            kind,
            match relative_path {
                Some(p) => Some(p@),
                None => None,
            },
            claimed,
            length,
            missing_lengths@,
        ),
{
    let p = match relative_path {
        None => return false,
        Some(p) => p,
    };
    if claimed {
        return false;
    }
    let valid = match kind {
        VaultAssetKind::Image => validate_image_relative_path(p).is_ok(),
        VaultAssetKind::Attachment => validate_attachment_relative_path(p).is_ok(),
    };
    if !valid {
        return false;
    }
    let mut i: usize = 0;
    while i < missing_lengths.len()
        invariant
            i <= missing_lengths.len(),
            forall|k: int| 0 <= k < i ==> missing_lengths@[k] != length,
        decreases missing_lengths.len() - i,
    {
        if missing_lengths[i] == length {
            assert(missing_lengths@[i as int] == length);
            assert(missing_lengths@.contains(length));
            return true;
        }
        i = i + 1;
    }
    false
}


// ---------------------------------------------------------------------------
// Applying the outcome
// ---------------------------------------------------------------------------

/// The records kept by screening, in order.
pub open spec fn spec_kept(records: Seq<(String, StoredVaultAsset)>, keep: Seq<bool>) -> Seq<(String, StoredVaultAsset)>
    decreases records.len(),
{
    if records.len() == 0 {
        records
    } else {
        let rest = spec_kept(records.drop_last(), keep);
        if keep[records.len() - 1] {
            rest.push(records.last())
        } else {
            rest
        }
    }
}

/// Keeps the records that screening kept, in order.
pub fn keep_records(records: Vec<(String, StoredVaultAsset)>, keep: &[bool]) -> (r: Vec<(String, StoredVaultAsset)>)
    requires
        keep.len() == records.len(),
    ensures
        r@ == spec_kept(records@, keep@),
{
    let ghost original = records@;
    let mut rest = records;
    let mut reversed: Vec<(String, StoredVaultAsset)> = Vec::new();
    while rest.len() > 0
        invariant
            rest@ == original.take(rest@.len() as int),
            rest@.len() <= original.len(),
            keep@.len() == original.len(),
            spec_kept(original, keep@) == spec_kept(rest@, keep@) + reversed@.reverse(),
        decreases rest@.len(),
    {
        let ghost before = rest@;
        let last = rest.pop().unwrap();
        assert(before.drop_last() =~= rest@);
        assert(rest@ =~= original.take(rest@.len() as int));
        let ghost rv = reversed@;
        if keep[rest.len()] {
            reversed.push(last);
            assert(reversed@.reverse() =~= seq![last] + rv.reverse());
            assert(spec_kept(before, keep@) == spec_kept(rest@, keep@).push(last));
            assert(spec_kept(rest@, keep@).push(last) + rv.reverse() =~= spec_kept(rest@, keep@) + (seq![last]
                + rv.reverse()));
        } else {
            assert(spec_kept(before, keep@) == spec_kept(rest@, keep@));
        }
    }
    assert(spec_kept(rest@, keep@) =~= Seq::<(String, StoredVaultAsset)>::empty());
    let mut out: Vec<(String, StoredVaultAsset)> = Vec::new();
    let ghost all = reversed@.reverse();
    while reversed.len() > 0
        invariant
            all == out@ + reversed@.reverse(),
        decreases reversed@.len(),
    {
        let ghost before = reversed@;
        let x = reversed.pop().unwrap();
        assert(before =~= reversed@.push(x));
        assert(before.reverse() =~= seq![x] + reversed@.reverse());
        out.push(x);
        assert(out@ + reversed@.reverse() =~= all);
    }
    assert(out@ =~= all);
    out
}

/// Moves the record with ID `asset_id` to where a missing asset was found:
/// its path, media type and modification time become the found file's; an
/// unresolved outcome, or an ID without a record, changes nothing.
pub fn apply_relink(records: &mut Vec<(String, StoredVaultAsset)>, asset_id: &str, outcome: &RelinkOutcome)
    ensures
        final(records)@.len() == old(records)@.len(),
        ({
            let at = spec_record_position(old(records)@, asset_id@, 0);
            forall|i: int|
                0 <= i < old(records)@.len() ==> if i == at && outcome is Relinked {
                    let n = #[trigger] final(records)@[i];
                    let o = old(records)@[i];
                    &&& n.0 == o.0
                    &&& n.1.kind == o.1.kind
                    &&& n.1.fingerprint == o.1.fingerprint
                    &&& n.1.relative_path@ == outcome->Relinked_relative_path@
                    &&& n.1.media_type@ == outcome->Relinked_media_type@
                    &&& n.1.modified_nanos == outcome->Relinked_modified_nanos
                } else {
                    final(records)@[i] == old(records)@[i]
                }
        }),
{
    let (relative_path, media_type, modified_nanos) = match outcome {
        RelinkOutcome::Relinked { relative_path, media_type, modified_nanos } => (relative_path, media_type, *modified_nanos),
        RelinkOutcome::Unresolved(_) => return,
    };
    proof {
        crate::asset_moves::lemma_record_position_in_range(records@, asset_id@, 0);
    }
    let i = match record_position(records.as_slice(), asset_id) {
        None => return,
        Some(i) => i,
    };
    let old_entry = records.remove(i);
    let (id, stored) = old_entry;
    let updated = StoredVaultAsset {
        kind: stored.kind,
        relative_path: owned(relative_path.as_str()),
        media_type: owned(media_type.as_str()),
        fingerprint: stored.fingerprint,
        modified_nanos,
    };
    records.insert(i, (id, updated));
}

/// The images of the records, in order: each record of an image with its
/// ID, path and media type.
pub open spec fn spec_embedded_images(records: Seq<(String, StoredVaultAsset)>) -> Seq<(Seq<char>, Seq<char>, Seq<char>)>
    decreases records.len(),
{
    if records.len() == 0 {
        Seq::empty()
    } else {
        let rest = spec_embedded_images(records.drop_last());
        let (id, a) = records.last();
        if a.kind == VaultAssetKind::Image {
            rest.push((id@, a.relative_path@, a.media_type@))
        } else {
            rest
        }
    }
}

/// The images of the records that a vault lists once opened.
pub fn embedded_images(records: &[(String, StoredVaultAsset)]) -> (r: Vec<EmbeddedImage>)
    ensures
        r@.map_values(|e: EmbeddedImage| (e.id@, e.relative_path@, e.media_type@)) == spec_embedded_images(records@),
{
    let mut out: Vec<EmbeddedImage> = Vec::new();
    let mut i: usize = 0;
    while i < records.len()
        invariant
            i <= records.len(),
            out@.map_values(|e: EmbeddedImage| (e.id@, e.relative_path@, e.media_type@)) == spec_embedded_images(
                records@.take(i as int),
            ),
        decreases records.len() - i,
    {
        assert(records@.take(i as int + 1).drop_last() =~= records@.take(i as int));
        assert(records@.take(i as int + 1).last() == records@[i as int]);
        let ghost before = out@;
        if records[i].1.kind == VaultAssetKind::Image {
            out.push(
                EmbeddedImage {
                    id: owned(records[i].0.as_str()),
                    relative_path: owned(records[i].1.relative_path.as_str()),
                    media_type: owned(records[i].1.media_type.as_str()),
                },
            );
            assert(out@.map_values(|e: EmbeddedImage| (e.id@, e.relative_path@, e.media_type@)) =~= before.map_values(
                |e: EmbeddedImage| (e.id@, e.relative_path@, e.media_type@),
            ).push((records@[i as int].0@, records@[i as int].1.relative_path@, records@[i as int].1.media_type@)));
        }
        i = i + 1;
    }
    assert(records@.take(records.len() as int) =~= records@);
    out
}

/// The attachments of the records, in order: each record of an attachment
/// with its ID, path, media type and length.
pub open spec fn spec_embedded_attachments(records: Seq<(String, StoredVaultAsset)>) -> Seq<(Seq<char>, Seq<char>, Seq<char>, u64)>
    decreases records.len(),
{
    if records.len() == 0 {
        Seq::empty()
    } else {
        let rest = spec_embedded_attachments(records.drop_last());
        let (id, a) = records.last();
        if a.kind == VaultAssetKind::Attachment {
            rest.push((id@, a.relative_path@, a.media_type@, a.fingerprint.length))
        } else {
            rest
        }
    }
}

/// The attachments of the records that a vault lists once opened;
/// `opening_disabled` tells, for each record, whether its file may not be
/// opened (as `attachment_opening_is_disabled` decides from the file).
pub fn embedded_attachments(records: &[(String, StoredVaultAsset)], opening_disabled: &[bool]) -> (r: Vec<EmbeddedAttachment>)
    requires
        opening_disabled.len() == records.len(),
    ensures
        r@.map_values(|e: EmbeddedAttachment| (e.id@, e.relative_path@, e.media_type@, e.byte_length))
            == spec_embedded_attachments(records@),
{
    let mut out: Vec<EmbeddedAttachment> = Vec::new();
    let mut i: usize = 0;
    while i < records.len()
        invariant
            i <= records.len(),
            opening_disabled.len() == records.len(),
            out@.map_values(|e: EmbeddedAttachment| (e.id@, e.relative_path@, e.media_type@, e.byte_length))
                == spec_embedded_attachments(records@.take(i as int)),
        decreases records.len() - i,
    {
        assert(records@.take(i as int + 1).drop_last() =~= records@.take(i as int));
        assert(records@.take(i as int + 1).last() == records@[i as int]);
        let ghost before = out@;
        if records[i].1.kind == VaultAssetKind::Attachment {
            out.push(
                EmbeddedAttachment {
                    id: owned(records[i].0.as_str()),
                    relative_path: owned(records[i].1.relative_path.as_str()),
                    media_type: owned(records[i].1.media_type.as_str()),
                    byte_length: records[i].1.fingerprint.length,
                    opening_disabled: opening_disabled[i],
                },
            );
            assert(out@.map_values(|e: EmbeddedAttachment| (e.id@, e.relative_path@, e.media_type@, e.byte_length))
                =~= before.map_values(|e: EmbeddedAttachment| (e.id@, e.relative_path@, e.media_type@, e.byte_length)).push(
                (
                    records@[i as int].0@,
                    records@[i as int].1.relative_path@,
                    records@[i as int].1.media_type@,
                    records@[i as int].1.fingerprint.length,
                ),
            ));
        }
        i = i + 1;
    }
    assert(records@.take(records.len() as int) =~= records@);
    out
}

} // verus!
