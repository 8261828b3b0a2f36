//! What embedding a file into a note decides before the vault is touched:
//! the stored settings, the destination folder, the name and type of the
//! new file, and the stable ID the file is recorded under.
#![verifier::loop_isolation(false)]

use crate::assets::VaultAssetKind;
use crate::encoding::{decimal, fingerprint_bytes, fresh_id, spec_decimal, spec_fnv, spec_id_base, spec_id_candidate, FileFingerprint, FNV_OFFSET_BASIS};
use crate::file_names::{safe_attachment_file_name, safe_image_file_name, spec_safe_attachment_file_name, spec_safe_image_file_name};
use crate::media::{spec_validate_image_bytes, validate_image_bytes_impl, view_pair};
use crate::model::ImageEmbedSettings;
use crate::rules::{
    image_destination_folder, normalize_attachment_embed_settings, normalize_image_embed_settings,
    spec_destination_folder, spec_missing_attachment_folder, spec_missing_image_folder,
    spec_normalize_embed_settings, settings_view, attachment_destination_folder,
};
use crate::text::{chars_of, extend_chars, owned, string_of};
use vstd::prelude::*;

verus! {

/// What embedding an image settles before the vault is read: the settings
/// to store, the folder a new copy goes in, the image's media type, the
/// name a new copy is given, and the fingerprint of the bytes.
#[derive(Debug)]
pub struct ImageEmbedPlan {
    pub settings: ImageEmbedSettings,
    pub destination_folder: String,
    pub media_type: &'static str,
    pub file_name: String,
    pub fingerprint: FileFingerprint,
}

/// The checks and choices made before an image is embedded, in order: the
/// settings, the destination for the note, then the image bytes against
/// the file name; the first refusal is reported.
pub open spec fn spec_plan_image_embedding(note: Seq<char>, settings: ImageEmbedSettings, file_name: Seq<char>, bytes: Seq<u8>) -> Result<((crate::model::ImageEmbedLocation, Seq<char>), Seq<char>, Seq<char>, Seq<char>), Seq<char>> {
    match spec_normalize_embed_settings(settings.location, settings.folder_path@, spec_missing_image_folder()) {
        Err(e) => Err(e),
        Ok(stored) => match spec_destination_folder(note, settings.location, settings.folder_path@, spec_missing_image_folder()) {
            Err(e) => Err(e),
            Ok(folder) => match spec_validate_image_bytes(bytes, Some(file_name)) {
                Err(e) => Err(e),
                Ok((media_type, extension)) => Ok((stored, folder, media_type, spec_safe_image_file_name(file_name, extension))),
            },
        },
    }
}

/// The checks and choices made before an image is embedded.
pub fn plan_image_embedding(note_relative_path: &str, settings: &ImageEmbedSettings, file_name: &str, bytes: &[u8]) -> (r: Result<ImageEmbedPlan, String>)
    ensures
        match r {
            Ok(p) => {
                &&& spec_plan_image_embedding(note_relative_path@, *settings, file_name@, bytes@) == Ok::<((crate::model::ImageEmbedLocation, Seq<char>), Seq<char>, Seq<char>, Seq<char>), Seq<char>>((settings_view(p.settings), p.destination_folder@, p.media_type@, p.file_name@))
                &&& p.fingerprint.length == bytes@.len()
                &&& p.fingerprint.hash == spec_fnv(FNV_OFFSET_BASIS, bytes@)
            },
            Err(e) => spec_plan_image_embedding(note_relative_path@, *settings, file_name@, bytes@) == Err::<((crate::model::ImageEmbedLocation, Seq<char>), Seq<char>, Seq<char>, Seq<char>), Seq<char>>(e@),
        },
{
    let stored = match normalize_image_embed_settings(settings) {
        Err(e) => return Err(e),
        Ok(s) => s,
    };
    let destination_folder = match image_destination_folder(note_relative_path, settings) {
        Err(e) => return Err(e),
        Ok(f) => f,
    };
    let (media_type, extension) = match validate_image_bytes_impl(bytes, Some(file_name)) {
        Err(e) => return Err(e),
        Ok(p) => p,
    };
    let safe_name = safe_image_file_name(file_name, extension);
    let fingerprint = fingerprint_bytes(bytes);
    Ok(ImageEmbedPlan { settings: stored, destination_folder, media_type, file_name: safe_name, fingerprint })
}

/// What embedding an attachment settles before the vault is read: the
/// settings to store, the folder a new copy goes in, and the name a new
/// copy is given.
#[derive(Debug)]
pub struct AttachmentEmbedPlan {
    pub settings: ImageEmbedSettings,
    pub destination_folder: String,
    pub file_name: String,
}

/// The checks and choices made before an attachment is embedded, in order:
/// the settings, the destination for the note, the source's name (which
/// must be valid Unicode), then a safe name for the copy.
pub open spec fn spec_plan_attachment_embedding(note: Seq<char>, settings: ImageEmbedSettings, source_name: Option<Seq<char>>) -> Result<((crate::model::ImageEmbedLocation, Seq<char>), Seq<char>, Seq<char>), Seq<char>> {
    match spec_normalize_embed_settings(settings.location, settings.folder_path@, spec_missing_attachment_folder()) {
        Err(e) => Err(e),
        Ok(stored) => match spec_destination_folder(note, settings.location, settings.folder_path@, spec_missing_attachment_folder()) {
            Err(e) => Err(e),
            Ok(folder) => match source_name {
                None => Err("The selected attachment name is not valid Unicode."@),
                Some(name) => match spec_safe_attachment_file_name(name) {
                    Err(e) => Err(e),
                    Ok(safe) => Ok((stored, folder, safe)),
                },
            },
        },
    }
}

/// The checks and choices made before an attachment is embedded;
/// `source_name` is the source file's name when it is valid Unicode.
pub fn plan_attachment_embedding(note_relative_path: &str, settings: &ImageEmbedSettings, source_name: Option<&str>) -> (r: Result<AttachmentEmbedPlan, String>)
    ensures
        match r {
            Ok(p) => spec_plan_attachment_embedding(note_relative_path@, *settings, crate::vault_import::view_opt_str(source_name)) == Ok::<((crate::model::ImageEmbedLocation, Seq<char>), Seq<char>, Seq<char>), Seq<char>>((settings_view(p.settings), p.destination_folder@, p.file_name@)),
            Err(e) => spec_plan_attachment_embedding(note_relative_path@, *settings, crate::vault_import::view_opt_str(source_name)) == Err::<((crate::model::ImageEmbedLocation, Seq<char>), Seq<char>, Seq<char>), Seq<char>>(e@),
        },
{
    let stored = match normalize_attachment_embed_settings(settings) {
        Err(e) => return Err(e),
        Ok(s) => s,
    };
    let destination_folder = match attachment_destination_folder(note_relative_path, settings) {
        Err(e) => return Err(e),
        Ok(f) => f,
    };
    let name = match source_name {
        None => return Err(owned("The selected attachment name is not valid Unicode.")),
        Some(n) => n,
    };
    let file_name = match safe_attachment_file_name(name) {
        Err(e) => return Err(e),
        Ok(n) => n,
    };
    Ok(AttachmentEmbedPlan { settings: stored, destination_folder, file_name })
}

/// The refusal given when a vault already tracks its maximum of assets.
pub fn asset_capacity_error(count: usize, kind: VaultAssetKind) -> (r: Option<String>)
    ensures
        match r {
            Some(e) => count >= crate::rules::MAX_VAULT_ASSETS && e@ == match kind {
                VaultAssetKind::Image => "This vault already tracks the maximum of 100000 embedded images."@,
                VaultAssetKind::Attachment => "This vault already tracks the maximum of 100000 embedded files."@,
            },
            None => count < crate::rules::MAX_VAULT_ASSETS,
        },
{
    if count < crate::rules::MAX_VAULT_ASSETS {
        return None;
    }
    match kind {
        VaultAssetKind::Image => Some(owned("This vault already tracks the maximum of 100000 embedded images.")),
        VaultAssetKind::Attachment => Some(owned("This vault already tracks the maximum of 100000 embedded files.")),
    }
}

/// The text a new asset's stable ID is derived from: its path, its length,
/// its hash and the time, separated by `:`.
pub open spec fn spec_asset_id_seed(relative_path: Seq<char>, fingerprint: FileFingerprint, now: u64) -> Seq<char> {
    relative_path + seq![':'] + spec_decimal(fingerprint.length as nat) + seq![':'] + spec_decimal(fingerprint.hash as nat) + seq![':'] + spec_decimal(now as nat)
}

/// The prefix of a new asset's stable ID: `image` or `asset`.
pub open spec fn spec_asset_id_prefix(kind: VaultAssetKind) -> Seq<char> {
    match kind {
        VaultAssetKind::Image => "image"@,
        VaultAssetKind::Attachment => "asset"@,
    }
}

/// A stable ID for a newly embedded asset, not among the IDs in `used`,
/// which records it; `fallback_suffix` (the time) ends the ID in the
/// unlikely case that every derived name is taken.
pub fn new_asset_id(kind: VaultAssetKind, relative_path: &str, fingerprint: &FileFingerprint, now: u64, used: &mut Vec<String>, fallback_suffix: u64) -> (r: String)
    ensures
        ({
            let base = spec_id_base(spec_asset_id_prefix(kind), spec_asset_id_seed(relative_path@, *fingerprint, now));
            let taken = crate::frontmatter::strings_view(old(used)@);
            ||| exists|k: nat|
                {
                    &&& 1 <= k <= 9999
                    &&& r@ == #[trigger] spec_id_candidate(base, k)
                    &&& !taken.contains(spec_id_candidate(base, k))
                    &&& forall|j: nat| 1 <= j < k ==> taken.contains(#[trigger] spec_id_candidate(base, j))
                    &&& crate::frontmatter::strings_view(final(used)@) == taken.push(r@)
                }
            ||| {
                &&& forall|k: nat| 1 <= k <= 9999 ==> taken.contains(#[trigger] spec_id_candidate(base, k))
                &&& r@ == base + seq!['-'] + spec_decimal(fallback_suffix as nat)
                &&& final(used)@ == old(used)@
            }
        }),
{
    let mut seed = chars_of(relative_path);
    seed.push(':');
    extend_chars(&mut seed, &decimal(fingerprint.length));
    seed.push(':');
    extend_chars(&mut seed, &decimal(fingerprint.hash));
    seed.push(':');
    extend_chars(&mut seed, &decimal(now));
    assert(seed@ =~= spec_asset_id_seed(relative_path@, *fingerprint, now));
    let seed = string_of(&seed);
    let prefix = match kind {
        VaultAssetKind::Image => "image",
        VaultAssetKind::Attachment => "asset",
    };
    assert(prefix@ == spec_asset_id_prefix(kind));
    fresh_id(prefix, seed.as_str(), used, fallback_suffix)
}


/// Characters that stable IDs may hold, each taking one byte.
pub open spec fn spec_id_chars(s: Seq<char>) -> bool {
    forall|i: int| 0 <= i < s.len() ==> crate::names::spec_is_asset_id_char(#[trigger] s[i]) && (s[i] as u32) < 0x80
}

proof fn lemma_id_chars_concat(a: Seq<char>, b: Seq<char>)
    requires
        spec_id_chars(a),
        spec_id_chars(b),
    ensures
        spec_id_chars(a + b),
{
    assert forall|i: int| 0 <= i < (a + b).len() implies crate::names::spec_is_asset_id_char(#[trigger] (a + b)[i]) && ((a + b)[i] as u32) < 0x80 by {
        if i < a.len() {
            assert((a + b)[i] == a[i]);
        } else {
            assert((a + b)[i] == b[i - a.len()]);
        }
    }
}

proof fn lemma_decimal_id_chars(n: nat, k: nat)
    requires
        k >= 1,
        n < crate::encoding::ten_pow(k),
    ensures
        spec_id_chars(spec_decimal(n)),
        spec_decimal(n).len() <= k,
{
    crate::encoding::lemma_decimal_digits(n, k);
}

/// Every stable ID made for a new image or attachment passes the stable-ID
/// check, whichever name is chosen: the derived ones (`k` from 1 to 9999)
/// and the one ending in the fallback suffix.
pub proof fn lemma_new_asset_ids_are_valid(kind: VaultAssetKind, seed: Seq<char>, k: nat, suffix: u64)
    requires
        1 <= k <= 9999,
    ensures
        crate::names::spec_is_valid_asset_id(spec_id_candidate(spec_id_base(spec_asset_id_prefix(kind), seed), k)),
        crate::names::spec_is_valid_asset_id(spec_id_base(spec_asset_id_prefix(kind), seed) + seq!['-'] + spec_decimal(suffix as nat)),
{
    reveal_strlit("image");
    reveal_strlit("asset");
    let p = spec_asset_id_prefix(kind);
    assert(spec_id_chars(p));
    let h = spec_fnv(FNV_OFFSET_BASIS, vstd::utf8::encode_utf8(seed));
    crate::encoding::lemma_hex16_digits(h);
    let hex = crate::encoding::spec_hex16(h);
    assert(spec_id_chars(hex));
    let dash = seq!['-'];
    assert(spec_id_chars(dash));
    lemma_id_chars_concat(p, dash);
    lemma_id_chars_concat(p + dash, hex);
    let base = spec_id_base(p, seed);
    assert(base == p + dash + hex);
    assert(crate::encoding::ten_pow(4) == 10000) by {
        reveal_with_fuel(crate::encoding::ten_pow, 5);
    }
    assert(crate::encoding::ten_pow(20) == 100000000000000000000) by {
        reveal_with_fuel(crate::encoding::ten_pow, 21);
    }
    lemma_decimal_id_chars(k, 4);
    lemma_decimal_id_chars(suffix as nat, 20);
    lemma_id_chars_concat(base, dash);
    lemma_id_chars_concat(base + dash, spec_decimal(k));
    lemma_id_chars_concat(base + dash, spec_decimal(suffix as nat));
    let candidate = spec_id_candidate(base, k);
    let fallback = base + dash + spec_decimal(suffix as nat);
    crate::encoding::lemma_utf8_len_ascii(candidate);
    crate::encoding::lemma_utf8_len_ascii(fallback);
}


// ---------------------------------------------------------------------------
// Choosing what an embedded image becomes
// ---------------------------------------------------------------------------

/// What was found out about a vault before an image is embedded.
pub struct ImageEmbedFacts {
    /// The vault's records exist but could not be read.
    pub state_unreadable: bool,
    /// The vault's revision now.
    pub revision: u64,
    /// The ID and stored path of the image record kept for the image the
    /// note already points to, when there is one.
    pub existing_record: Option<(String, String)>,
    /// A file still exists at that record's stored path.
    pub stored_path_exists: bool,
    /// How many assets the vault keeps records of.
    pub tracked_assets: usize,
}

/// What embedding an image does once its bytes were checked.
#[derive(Debug, Clone, PartialEq, Eq)]
pub enum ImageEmbedDecision {
    /// The image is already recorded under `id`; its record is refreshed
    /// and now points to `relative_path`.
    RefreshRecord { id: String, relative_path: String },
    /// The image already in the vault at `relative_path` gets a new record.
    RecordExisting { relative_path: String },
    /// A new copy is written to the destination folder and recorded.
    WriteNew,
}

pub enum ImageEmbedDecisionView {
    RefreshRecord { id: Seq<char>, relative_path: Seq<char> },
    RecordExisting { relative_path: Seq<char> },
    WriteNew,
}

pub open spec fn image_embed_decision_view(d: ImageEmbedDecision) -> ImageEmbedDecisionView {
    match d {
        ImageEmbedDecision::RefreshRecord { id, relative_path } => ImageEmbedDecisionView::RefreshRecord {
            id: id@,
            relative_path: relative_path@,
        },
        ImageEmbedDecision::RecordExisting { relative_path } => ImageEmbedDecisionView::RecordExisting {
            relative_path: relative_path@,
        },
        ImageEmbedDecision::WriteNew => ImageEmbedDecisionView::WriteNew,
    }
}

/// What embedding an image does, or why it is refused: not while the
/// records are unreadable or the vault changed; an image the note already
/// points to (when that path is a valid image path) keeps its record,
/// refreshed, unless another file differing only in letter case is at the
/// stored path; otherwise a new record needs room, and the image already at
/// that path is recorded, or a new copy is written.
pub open spec fn spec_decide_image_embedding(
    existing_relative_path: Option<Seq<char>>,
    facts: ImageEmbedFacts,
    expected_revision: u64,
) -> Result<ImageEmbedDecisionView, Seq<char>> {
    let existing = match existing_relative_path {
        Some(p) => if crate::workspace_paths::spec_image_relative_path_error(p) is None {
            Some(p)
        } else {
            None
        },
        None => None,
    };
    if facts.state_unreadable {
        Err("Embedded images cannot be changed while workspace metadata is unreadable or newer than this app."@)
    } else if facts.revision != expected_revision {
        Err("The vault changed outside Obsidian At Home. Reload it before embedding the image."@)
    } else if existing is Some && facts.existing_record is Some {
        let p = existing->Some_0;
        let (id, stored) = facts.existing_record->Some_0;
        if stored@ != p && facts.stored_path_exists {
            Err("The vault contains image paths that differ only by letter case near "@ + p + "."@)
        } else {
            Ok(ImageEmbedDecisionView::RefreshRecord { id: id@, relative_path: p })
        }
    } else if facts.tracked_assets >= crate::rules::MAX_VAULT_ASSETS {
        Err("This vault already tracks the maximum of 100000 embedded images."@)
    } else {
        match existing {
            Some(p) => Ok(ImageEmbedDecisionView::RecordExisting { relative_path: p }),
            None => Ok(ImageEmbedDecisionView::WriteNew),
        }
    }
}

/// Decides what embedding an image does, from what was found out about
/// the vault.
pub fn decide_image_embedding(
    existing_relative_path: Option<&str>,
    facts: &ImageEmbedFacts,
    expected_revision: u64,
) -> (r: Result<ImageEmbedDecision, String>)
    ensures
        match r {
            Ok(d) => spec_decide_image_embedding(
                match existing_relative_path {
                    Some(p) => Some(p@),
                    None => None,
                },
                *facts,
                expected_revision,
            ) == Ok::<ImageEmbedDecisionView, Seq<char>>(image_embed_decision_view(d)),
            Err(e) => spec_decide_image_embedding(
                match existing_relative_path {
                    Some(p) => Some(p@),
                    None => None,
                },
                *facts,
                expected_revision,
            ) == Err::<ImageEmbedDecisionView, Seq<char>>(e@),
        },
{
    let existing: Option<&str> = match existing_relative_path {
        Some(p) => if crate::workspace_paths::validate_image_relative_path(p).is_ok() {
            Some(p)
        } else {
            None
        },
        None => None,
    };
    if facts.state_unreadable {
        return Err(owned(
            "Embedded images cannot be changed while workspace metadata is unreadable or newer than this app.",
        ));
    }
    if facts.revision != expected_revision {
        return Err(owned("The vault changed outside Obsidian At Home. Reload it before embedding the image."));
    }
    if let Some(p) = existing {
        if let Some((id, stored)) = &facts.existing_record {
            if !crate::text::chars_eq(&chars_of(stored.as_str()), &chars_of(p)) && facts.stored_path_exists {
                return Err(crate::text::concat3(
                    "The vault contains image paths that differ only by letter case near ",
                    &chars_of(p),
                    ".",
                ));
            }
            return Ok(ImageEmbedDecision::RefreshRecord { id: owned(id.as_str()), relative_path: owned(p) });
        }
    }
    if facts.tracked_assets >= crate::rules::MAX_VAULT_ASSETS {
        return Err(owned("This vault already tracks the maximum of 100000 embedded images."));
    }
    match existing {
        Some(p) => Ok(ImageEmbedDecision::RecordExisting { relative_path: owned(p) }),
        None => Ok(ImageEmbedDecision::WriteNew),
    }
}


/// Looking up a key that no earlier record has, after a record with that
/// key was added, finds the added record.
proof fn lemma_keyed_position_after_push(
    records: Seq<(String, crate::assets::StoredVaultAsset)>,
    keys: Seq<String>,
    entry: (String, crate::assets::StoredVaultAsset),
    key: String,
    from: int,
)
    requires
        0 <= from <= records.len(),
        keys.len() == records.len(),
        crate::asset_moves::spec_keyed_position(records, keys, VaultAssetKind::Image, key@, from) == -1,
        entry.1.kind == VaultAssetKind::Image,
    ensures
        crate::asset_moves::spec_keyed_position(records.push(entry), keys.push(key), VaultAssetKind::Image, key@, from)
            == records.len(),
    decreases records.len() - from,
{
    if from < records.len() {
        assert(records.push(entry)[from] == records[from]);
        assert(keys.push(key)[from] == keys[from]);
        lemma_keyed_position_after_push(records, keys, entry, key, from + 1);
    } else {
        assert(records.push(entry)[from] == entry);
        assert(keys.push(key)[from] == key);
    }
}

/// Embedding an image that is already in the vault records it under a new
/// ID; embedding it again, with the vault unchanged, finds that record and
/// keeps its ID, without writing a copy; and an embedding made against a
/// revision the vault no longer has is refused.
pub proof fn lemma_embedding_reuses_its_record(
    records: Seq<(String, crate::assets::StoredVaultAsset)>,
    keys: Seq<String>,
    id: String,
    record: crate::assets::StoredVaultAsset,
    key: String,
    path: Seq<char>,
    facts: ImageEmbedFacts,
    expected_revision: u64,
)
    requires
        keys.len() == records.len(),
        crate::asset_moves::spec_keyed_position(records, keys, VaultAssetKind::Image, key@, 0) == -1,
        record.kind == VaultAssetKind::Image,
        record.relative_path@ == path,
        crate::workspace_paths::spec_image_relative_path_error(path) is None,
        !facts.state_unreadable,
        facts.existing_record is None,
        facts.tracked_assets < crate::rules::MAX_VAULT_ASSETS,
    ensures
        spec_decide_image_embedding(Some(path), facts, facts.revision) == Ok::<ImageEmbedDecisionView, Seq<char>>(
            ImageEmbedDecisionView::RecordExisting { relative_path: path },
        ),
        crate::asset_moves::spec_keyed_position(records.push((id, record)), keys.push(key), VaultAssetKind::Image, key@, 0)
            == records.len(),
        ({
            let again = ImageEmbedFacts { existing_record: Some((id, record.relative_path)), ..facts };
            spec_decide_image_embedding(Some(path), again, facts.revision) == Ok::<ImageEmbedDecisionView, Seq<char>>(
                ImageEmbedDecisionView::RefreshRecord { id: id@, relative_path: path },
            )
        }),
        expected_revision != facts.revision ==> spec_decide_image_embedding(Some(path), facts, expected_revision) is Err,
{
    lemma_keyed_position_after_push(records, keys, (id, record), key, 0);
}

} // verus!
