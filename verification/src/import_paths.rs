//! Where an asset brought in from another vault lands: its own path when that
//! is free or already holds the same content, otherwise the first free
//! numbered name beside it.
use crate::attachments::spec_in_folder;
use crate::encoding::{decimal, lemma_decimal_injective, spec_decimal};
use crate::paths::{extension, file_stem, parent, spec_extension, spec_file_stem, spec_parent};
use crate::text::{chars_eq, chars_of, concat3, extend_chars, owned, string_of};
use crate::workspace_paths::{as_result, view_result};
use crate::workspace_paths::{
    spec_attachment_relative_path_error, spec_image_relative_path_error,
    validate_attachment_relative_path, validate_image_relative_path,
};
use vstd::prelude::*;

verus! {

/// The first number put into a name beside an imported asset's own path.
pub const FIRST_IMPORT_SUFFIX: u32 = 2;

/// The last number tried before the import gives up on an asset.
pub const LAST_IMPORT_SUFFIX: u32 = 10001;

/// What becomes of an imported asset's own path, given whether another asset
/// of the same import already claimed it, whether the vault already holds a
/// file there, and whether that file has the asset's content: `Some(false)`
/// to write the asset there, `Some(true)` when it is already there, `None`
/// to look for a numbered name instead.
pub open spec fn spec_keep_import_source_path(reserved: bool, exists: bool, same_content: bool) -> Option<bool> {
    if reserved {
        None
    } else if !exists {
        Some(false)
    } else if same_content {
        Some(true)
    } else {
        None
    }
}

pub fn keep_import_source_path(reserved: bool, exists: bool, same_content: bool) -> (r: Option<bool>)
    ensures
        r == spec_keep_import_source_path(reserved, exists, same_content),
{
    if reserved {
        None
    } else if !exists {
        Some(false)
    } else if same_content {
        Some(true)
    } else {
        None
    }
}

/// Whether a numbered name can take an imported asset: no other asset of the
/// import claimed it and the vault has nothing there.
pub open spec fn spec_import_candidate_is_free(reserved: bool, exists: bool) -> bool {
    !reserved && !exists
}

pub fn import_candidate_is_free(reserved: bool, exists: bool) -> (r: bool)
    ensures
        r == spec_import_candidate_is_free(reserved, exists),
{
    !reserved && !exists
}

/// The message given once every numbered name beside `source` is taken.
pub open spec fn spec_import_exhausted(source: Seq<char>) -> Seq<char> {
    "Could not choose a collision-free vault path for "@ + source + "."@
}

/// The numbered file name for an imported image: `stem index.extension`,
/// with stem `Image` and extension `png` where the source has none.
pub open spec fn spec_image_import_name(source: Seq<char>, index: nat) -> Seq<char> {
    let stem = match spec_file_stem(source) {
        Some(s) => s,
        None => "Image"@,
    };
    let ext = match spec_extension(source) {
        Some(e) => e,
        None => "png"@,
    };
    stem + seq![' '] + spec_decimal(index) + seq!['.'] + ext
}

/// The numbered file name for an imported attachment: `stem index.extension`,
/// or `stem index` where the source has no extension.
pub open spec fn spec_attachment_import_name(source: Seq<char>, index: nat) -> Seq<char> {
    let stem = match spec_file_stem(source) {
        Some(s) => s,
        None => "Attachment"@,
    };
    match spec_extension(source) {
        Some(e) => stem + seq![' '] + spec_decimal(index) + seq!['.'] + e,
        None => stem + seq![' '] + spec_decimal(index),
    }
}

/// The `index`-th numbered vault path tried for an image imported from
/// `source`: beside it, in the same folder, checked as an image path.
pub open spec fn spec_image_import_candidate(source: Seq<char>, index: nat) -> Result<Seq<char>, Seq<char>> {
    if index < FIRST_IMPORT_SUFFIX || index > LAST_IMPORT_SUFFIX {
        Err(spec_import_exhausted(source))
    } else {
        let p = spec_in_folder(spec_parent(source), spec_image_import_name(source, index));
        match spec_image_relative_path_error(p) {
            Some(e) => Err(e),
            None => Ok(p),
        }
    }
}

/// The `index`-th numbered vault path tried for an attachment imported from
/// `source`, checked as an attachment path.
pub open spec fn spec_attachment_import_candidate(source: Seq<char>, index: nat) -> Result<Seq<char>, Seq<char>> {
    if index < FIRST_IMPORT_SUFFIX || index > LAST_IMPORT_SUFFIX {
        Err(spec_import_exhausted(source))
    } else {
        let p = spec_in_folder(spec_parent(source), spec_attachment_import_name(source, index));
        match spec_attachment_relative_path_error(p) {
            Some(e) => Err(e),
            None => Ok(p),
        }
    }
}

fn beside(source: &[char], name: &[char]) -> (r: String)
    ensures
        r@ == spec_in_folder(spec_parent(source@), name@),
{
    let mut v = parent(source);
    if v.len() > 0 {
        v.push('/');
    }
    extend_chars(&mut v, name);
    string_of(&v)
}

/// The `index`-th numbered vault path for an image imported from
/// `source_relative_path` (numbers run from 2 to 10001), or the error the
/// import reports: the path check's own, or that every number is used up.
pub fn workspace_image_import_candidate(source_relative_path: &str, index: u32) -> (r: Result<String, String>)
    ensures
        crate::vault_paths::view_string_result(r) == spec_image_import_candidate(source_relative_path@, index as nat),
{
    let source = chars_of(source_relative_path);
    if index < FIRST_IMPORT_SUFFIX || index > LAST_IMPORT_SUFFIX {
        return Err(concat3("Could not choose a collision-free vault path for ", &source, "."));
    }
    let mut name = match file_stem(&source) {
        Some(s) => s,
        None => chars_of("Image"),
    };
    name.push(' ');
    extend_chars(&mut name, &decimal(index as u64));
    name.push('.');
    let ext = match extension(&source) {
        Some(e) => e,
        None => chars_of("png"),
    };
    extend_chars(&mut name, &ext);
    assert(name@ =~= spec_image_import_name(source_relative_path@, index as nat));
    let candidate = beside(&source, &name);
    match validate_image_relative_path(candidate.as_str()) {
        Err(e) => Err(e),
        Ok(()) => Ok(candidate),
    }
}

/// The `index`-th numbered vault path for an attachment imported from
/// `source_relative_path` (numbers run from 2 to 10001), or the error the
/// import reports.
pub fn workspace_attachment_import_candidate(source_relative_path: &str, index: u32) -> (r: Result<String, String>)
    ensures
        crate::vault_paths::view_string_result(r) == spec_attachment_import_candidate(source_relative_path@, index as nat),
{
    let source = chars_of(source_relative_path);
    if index < FIRST_IMPORT_SUFFIX || index > LAST_IMPORT_SUFFIX {
        return Err(concat3("Could not choose a collision-free vault path for ", &source, "."));
    }
    let mut name = match file_stem(&source) {
        Some(s) => s,
        None => chars_of("Attachment"),
    };
    name.push(' ');
    extend_chars(&mut name, &decimal(index as u64));
    match extension(&source) {
        Some(e) => {
            name.push('.');
            extend_chars(&mut name, &e);
        },
        None => {},
    }
    assert(name@ =~= spec_attachment_import_name(source_relative_path@, index as nat));
    let candidate = beside(&source, &name);
    match validate_attachment_relative_path(candidate.as_str()) {
        Err(e) => Err(e),
        Ok(()) => Ok(candidate),
    }
}

/// The numbered paths tried for one imported image are all different, so the
/// import never tries the same path twice.
pub proof fn lemma_image_import_candidates_differ(source: Seq<char>, i: nat, j: nat)
    requires
        i != j,
        spec_image_import_candidate(source, i) is Ok,
        spec_image_import_candidate(source, j) is Ok,
    ensures
        spec_image_import_candidate(source, i)->Ok_0 != spec_image_import_candidate(source, j)->Ok_0,
{
    let folder = spec_parent(source);
    let pre = if folder.len() == 0 { Seq::<char>::empty() } else { folder + seq!['/'] };
    let stem = match spec_file_stem(source) {
        Some(s) => s,
        None => "Image"@,
    };
    let ext = match spec_extension(source) {
        Some(e) => e,
        None => "png"@,
    };
    let head = pre + stem + seq![' '];
    let tail = seq!['.'] + ext;
    assert(spec_image_import_candidate(source, i)->Ok_0 =~= head + spec_decimal(i) + tail);
    assert(spec_image_import_candidate(source, j)->Ok_0 =~= head + spec_decimal(j) + tail);
    if head + spec_decimal(i) + tail == head + spec_decimal(j) + tail {
        crate::text::lemma_middle_injective(head, spec_decimal(i), spec_decimal(j), tail);
        lemma_decimal_injective(i, j);
    }
}

/// The numbered paths tried for one imported attachment are all different.
pub proof fn lemma_attachment_import_candidates_differ(source: Seq<char>, i: nat, j: nat)
    requires
        i != j,
        spec_attachment_import_candidate(source, i) is Ok,
        spec_attachment_import_candidate(source, j) is Ok,
    ensures
        spec_attachment_import_candidate(source, i)->Ok_0 != spec_attachment_import_candidate(source, j)->Ok_0,
{
    let folder = spec_parent(source);
    let pre = if folder.len() == 0 { Seq::<char>::empty() } else { folder + seq!['/'] };
    let stem = match spec_file_stem(source) {
        Some(s) => s,
        None => "Attachment"@,
    };
    let head = pre + stem + seq![' '];
    let tail = match spec_extension(source) {
        Some(e) => seq!['.'] + e,
        None => Seq::<char>::empty(),
    };
    assert(spec_attachment_import_candidate(source, i)->Ok_0 =~= head + spec_decimal(i) + tail);
    assert(spec_attachment_import_candidate(source, j)->Ok_0 =~= head + spec_decimal(j) + tail);
    if head + spec_decimal(i) + tail == head + spec_decimal(j) + tail {
        crate::text::lemma_middle_injective(head, spec_decimal(i), spec_decimal(j), tail);
        lemma_decimal_injective(i, j);
    }
}


// ---------------------------------------------------------------------------
// Checking a request to import assets
// ---------------------------------------------------------------------------

/// The most assets one import may bring in.
pub const MAX_IMPORTED_VAULT_ASSETS: usize = 100000;

/// Why an import of `images` and `attachments` is refused before anything
/// is read: more than 100000 of them together.
pub open spec fn spec_asset_import_limit_error(images: nat, attachments: nat) -> Option<Seq<char>> {
    if images + attachments > MAX_IMPORTED_VAULT_ASSETS {
        Some("Only 100000 asset files can be imported at once."@)
    } else {
        None
    }
}

/// Refuses an import of more than 100000 assets at once.
pub fn asset_import_limit(images: usize, attachments: usize) -> (r: Result<(), String>)
    ensures
        view_result(r) == as_result(spec_asset_import_limit_error(images as nat, attachments as nat)),
{
    if images > MAX_IMPORTED_VAULT_ASSETS || attachments > MAX_IMPORTED_VAULT_ASSETS - images {
        Err(owned("Only 100000 asset files can be imported at once."))
    } else {
        Ok(())
    }
}

/// All paths of an import, images first.
pub open spec fn spec_import_paths(images: Seq<String>, attachments: Seq<String>) -> Seq<Seq<char>> {
    images.map_values(|p: String| p@) + attachments.map_values(|p: String| p@)
}

/// Why the `i`-th path of an import is refused, given that the earlier ones
/// passed: not a valid path for its kind, or the same as an earlier one.
pub open spec fn spec_import_path_error_at(images: Seq<String>, attachments: Seq<String>, i: int) -> Option<Seq<char>> {
    let all = spec_import_paths(images, attachments);
    let p = all[i];
    let invalid = if i < images.len() {
        spec_image_relative_path_error(p)
    } else {
        spec_attachment_relative_path_error(p)
    };
    if invalid is Some {
        invalid
    } else if exists|j: int| 0 <= j < i && #[trigger] all[j] == p {
        Some("The asset import contains a duplicate path near "@ + p + "."@)
    } else {
        None
    }
}

/// The first refusal among the first `n` paths of an import.
pub open spec fn spec_import_paths_error_upto(images: Seq<String>, attachments: Seq<String>, n: int) -> Option<Seq<char>>
    decreases n,
{
    if n <= 0 {
        None
    } else {
        match spec_import_paths_error_upto(images, attachments, n - 1) {
            Some(e) => Some(e),
            None => spec_import_path_error_at(images, attachments, n - 1),
        }
    }
}

proof fn lemma_import_error_persists(images: Seq<String>, attachments: Seq<String>, n: int, m: int)
    requires
        0 <= n <= m,
        spec_import_paths_error_upto(images, attachments, n) is Some,
    ensures
        spec_import_paths_error_upto(images, attachments, m) == spec_import_paths_error_upto(images, attachments, n),
    decreases m - n,
{
    if m > n {
        lemma_import_error_persists(images, attachments, n, m - 1);
    }
}

/// Checks the paths of an import, images first: each valid for its kind
/// and none twice; the first refused path decides.
pub fn check_asset_import_paths(images: &[String], attachments: &[String]) -> (r: Result<(), String>)
    requires
        images.len() + attachments.len() <= usize::MAX,
    ensures
        view_result(r) == as_result(
            spec_import_paths_error_upto(images@, attachments@, (images@.len() + attachments@.len()) as int),
        ),
{
    let ghost all = spec_import_paths(images@, attachments@);
    let mut seen: Vec<Vec<char>> = Vec::new();
    let total = images.len() + attachments.len();
    let mut i: usize = 0;
    while i < total
        invariant
            total == images.len() + attachments.len(),
            all == spec_import_paths(images@, attachments@),
            all.len() == total,
            i <= total,
            seen@.len() == i,
            forall|k: int| 0 <= k < i ==> (#[trigger] seen@[k])@ == all[k],
            spec_import_paths_error_upto(images@, attachments@, i as int) is None,
        decreases total - i,
    {
        let p: &String = if i < images.len() {
            &images[i]
        } else {
            &attachments[i - images.len()]
        };
        assert(p@ == all[i as int]);
        let checked = if i < images.len() {
            validate_image_relative_path(p.as_str())
        } else {
            validate_attachment_relative_path(p.as_str())
        };
        if let Err(e) = checked {
            proof {
                lemma_import_error_persists(images@, attachments@, i as int + 1, total as int);
            }
            return Err(e);
        }
        let pc = chars_of(p.as_str());
        let mut j: usize = 0;
        while j < i
            invariant
                j <= i < total,
                total == images.len() + attachments.len(),
                all == spec_import_paths(images@, attachments@),
                all.len() == total,
                spec_import_paths_error_upto(images@, attachments@, i as int) is None,
                (if (i as int) < images@.len() {
                    spec_image_relative_path_error(all[i as int])
                } else {
                    spec_attachment_relative_path_error(all[i as int])
                }) is None,
                seen@.len() == i,
                pc@ == all[i as int],
                forall|k: int| 0 <= k < i ==> (#[trigger] seen@[k])@ == all[k],
                forall|k: int| 0 <= k < j ==> #[trigger] all[k] != all[i as int],
            decreases i - j,
        {
            if chars_eq(&seen[j], &pc) {
                assert(all[j as int] == all[i as int]);
                assert(spec_import_path_error_at(images@, attachments@, i as int) == Some(
                    "The asset import contains a duplicate path near "@ + pc@ + "."@,
                ));
                proof {
                    lemma_import_error_persists(images@, attachments@, i as int + 1, total as int);
                }
                return Err(concat3("The asset import contains a duplicate path near ", &pc, "."));
            }
            j = j + 1;
        }
        seen.push(pc);
        i = i + 1;
    }
    Ok(())
}

/// The warning for an asset left out of an import.
pub fn skipped_import_warning(relative_path: &str, error: &str) -> (r: String)
    ensures
        r@ == "Skipped "@ + relative_path@ + ": "@ + error@,
{
    let mut v = chars_of("Skipped ");
    extend_chars(&mut v, &chars_of(relative_path));
    extend_chars(&mut v, &chars_of(": "));
    extend_chars(&mut v, &chars_of(error));
    string_of(&v)
}

/// The warning for an asset no safe vault path could be kept for.
pub fn unreserved_import_warning(relative_path: &str, error: &str) -> (r: String)
    ensures
        r@ == "Could not reserve a safe path for "@ + relative_path@ + ": "@ + error@,
{
    let mut v = chars_of("Could not reserve a safe path for ");
    extend_chars(&mut v, &chars_of(relative_path));
    extend_chars(&mut v, &chars_of(": "));
    extend_chars(&mut v, &chars_of(error));
    string_of(&v)
}

/// The warning for an asset imported under another path than its own, or
/// `None` when it kept its path.
pub fn renamed_import_warning(relative_path: &str, target_path: &str) -> (r: Option<String>)
    ensures
        match r {
            Some(w) => relative_path@ != target_path@ && w@ == "Imported "@ + relative_path@ + " as "@
                + target_path@ + " to avoid an existing vault path."@,
            None => relative_path@ == target_path@,
        },
{
    if chars_eq(&chars_of(relative_path), &chars_of(target_path)) {
        return None;
    }
    let mut v = chars_of("Imported ");
    extend_chars(&mut v, &chars_of(relative_path));
    extend_chars(&mut v, &chars_of(" as "));
    extend_chars(&mut v, &chars_of(target_path));
    extend_chars(&mut v, &chars_of(" to avoid an existing vault path."));
    Some(string_of(&v))
}


// ---------------------------------------------------------------------------
// The vault paths an import has taken
// ---------------------------------------------------------------------------

/// The paths an import of assets has taken so far: each requested path
/// with the vault path it will be written to, and the key of that path.
pub struct ImportReservations {
    pub mappings: Vec<(String, String, String)>,
}

pub open spec fn spec_mapping_view(m: (String, String, String)) -> (Seq<char>, Seq<char>, Seq<char>) {
    (m.0@, m.1@, m.2@)
}

impl ImportReservations {
    pub open spec fn view(&self) -> Seq<(Seq<char>, Seq<char>, Seq<char>)> {
        self.mappings@.map_values(|m: (String, String, String)| spec_mapping_view(m))
    }

    /// No requested path is mapped twice, and no two taken paths share a key.
    pub open spec fn wf(&self) -> bool {
        forall|i: int, j: int|
            0 <= i < j < self.view().len() ==> (#[trigger] self.view()[i]).0 != (#[trigger] self.view()[j]).0
                && self.view()[i].2 != self.view()[j].2
    }

    /// Whether a taken path has the key `key`.
    pub open spec fn spec_is_reserved(&self, key: Seq<char>) -> bool {
        exists|i: int| 0 <= i < self.view().len() && (#[trigger] self.view()[i]).2 == key
    }

    /// Whether the requested path `source` has a vault path.
    pub open spec fn spec_is_mapped(&self, source: Seq<char>) -> bool {
        exists|i: int| 0 <= i < self.view().len() && (#[trigger] self.view()[i]).0 == source
    }

    /// No path taken yet.
    pub fn new() -> (r: ImportReservations)
        ensures
            r.wf(),
            r.view().len() == 0,
    {
        ImportReservations { mappings: Vec::new() }
    }

    /// Whether a taken path has the key `key`.
    pub fn is_reserved(&self, key: &str) -> (r: bool)
        ensures
            r == self.spec_is_reserved(key@),
    {
        let k = chars_of(key);
        let mut i: usize = 0;
        while i < self.mappings.len()
            invariant
                i <= self.mappings.len(),
                k@ == key@,
                forall|j: int| 0 <= j < i ==> (#[trigger] self.view()[j]).2 != key@,
            decreases self.mappings.len() - i,
        {
            assert(self.view()[i as int] == spec_mapping_view(self.mappings@[i as int]));
            if chars_eq(&chars_of(self.mappings[i].2.as_str()), &k) {
                return true;
            }
            i = i + 1;
        }
        false
    }

    /// Whether the requested path `source` has a vault path.
    pub fn is_mapped(&self, source: &str) -> (r: bool)
        ensures
            r == self.spec_is_mapped(source@),
    {
        let k = chars_of(source);
        let mut i: usize = 0;
        while i < self.mappings.len()
            invariant
                i <= self.mappings.len(),
                k@ == source@,
                forall|j: int| 0 <= j < i ==> (#[trigger] self.view()[j]).0 != source@,
            decreases self.mappings.len() - i,
        {
            assert(self.view()[i as int] == spec_mapping_view(self.mappings@[i as int]));
            if chars_eq(&chars_of(self.mappings[i].0.as_str()), &k) {
                return true;
            }
            i = i + 1;
        }
        false
    }

    /// Takes `target`, whose key is `key`, for the requested path `source`;
    /// refused, changing nothing, when that key is already taken or
    /// `source` already has a path.
    pub fn reserve(&mut self, source: &str, target: &str, key: &str) -> (taken: bool)
        requires
            old(self).wf(),
        ensures
            final(self).wf(),
            taken == (!old(self).spec_is_reserved(key@) && !old(self).spec_is_mapped(source@)),
            taken ==> final(self).view() == old(self).view().push((source@, target@, key@)),
            !taken ==> final(self).view() == old(self).view(),
    {
        if self.is_reserved(key) || self.is_mapped(source) {
            return false;
        }
        let ghost before = self.view();
        self.mappings.push((owned(source), owned(target), owned(key)));
        assert(self.view() =~= before.push((source@, target@, key@)));
        assert forall|i: int, j: int| 0 <= i < j < self.view().len() implies (#[trigger] self.view()[i]).0 != (
        #[trigger] self.view()[j]).0 && self.view()[i].2 != self.view()[j].2 by {
            if j == before.len() {
                assert(self.view()[i] == before[i]);
            }
        }
        true
    }

    /// The error an import ends with when a requested path, images first,
    /// has no vault path: `A safe destination could not be reserved for`
    /// the first such path.
    pub fn unmapped_error(&self, images: &[String], attachments: &[String]) -> (r: Option<String>)
        ensures
            match r {
                Some(e) => exists|k: int|
                    0 <= k < spec_import_paths(images@, attachments@).len() && !self.spec_is_mapped(
                        #[trigger] spec_import_paths(images@, attachments@)[k],
                    ) && (forall|m: int| 0 <= m < k ==> self.spec_is_mapped(spec_import_paths(images@, attachments@)[m]))
                        && e@ == "A safe destination could not be reserved for "@ + spec_import_paths(
                        images@,
                        attachments@,
                    )[k] + "."@,
                None => forall|k: int|
                    0 <= k < spec_import_paths(images@, attachments@).len() ==> self.spec_is_mapped(
                        #[trigger] spec_import_paths(images@, attachments@)[k],
                    ),
            },
    {
        let ghost all = spec_import_paths(images@, attachments@);
        let mut i: usize = 0;
        while i < images.len()
            invariant
                i <= images.len(),
                all == spec_import_paths(images@, attachments@),
                forall|m: int| 0 <= m < i ==> self.spec_is_mapped(#[trigger] all[m]),
            decreases images.len() - i,
        {
            assert(all[i as int] == images@[i as int]@);
            if !self.is_mapped(images[i].as_str()) {
                return Some(concat3("A safe destination could not be reserved for ", &chars_of(images[i].as_str()), "."));
            }
            i = i + 1;
        }
        let mut j: usize = 0;
        while j < attachments.len()
            invariant
                j <= attachments.len(),
                all == spec_import_paths(images@, attachments@),
                all.len() == images.len() + attachments.len(),
                forall|m: int| 0 <= m < images.len() + j ==> self.spec_is_mapped(#[trigger] all[m]),
            decreases attachments.len() - j,
        {
            assert(all[images.len() + j as int] == attachments@[j as int]@);
            if !self.is_mapped(attachments[j].as_str()) {
                assert(!self.spec_is_mapped(all[images.len() + j as int]));
                return Some(concat3("A safe destination could not be reserved for ", &chars_of(attachments[j].as_str()), "."));
            }
            j = j + 1;
        }
        None
    }
}


// ---------------------------------------------------------------------------
// The steps for one requested asset
// ---------------------------------------------------------------------------

/// Where the import of one requested asset stands.
#[derive(Debug, Clone, Copy, PartialEq, Eq, Structural)]
pub enum ImportItemState {
    /// Its source is read (and, for an image, checked).
    ReadSource,
    /// A vault path is chosen for it, by its content.
    ChooseTarget,
    /// Its source could not be read; a vault path is still chosen for it,
    /// without content, so that its notes can point somewhere safe.
    ChooseFallback,
    /// Its file is staged for writing.
    StageFile,
    /// It is done; the next requested asset follows.
    Finished,
}

/// What the caller reports for one requested asset.
#[derive(Debug, Clone, Copy, PartialEq, Eq, Structural)]
pub enum ImportItemEvent {
    /// The source was read, or not.
    SourceRead(bool),
    /// The vault path chosen: `None` when none could be, else whether the
    /// vault already holds the same content there.
    TargetChosen(Option<bool>),
    /// The file was staged, or not.
    Staged(bool),
}

/// What the caller does for one requested asset, in this order: choose a
/// vault path (by content or not), take it (warning when it differs from
/// the requested path, if asked), stage the file, list the file, warn that
/// no path could be taken, warn that the asset was skipped.
#[derive(Debug, Clone, Copy, PartialEq, Eq, Structural)]
pub struct ImportItemAction {
    pub read_source: bool,
    pub choose_target: Option<bool>,
    pub reserve: bool,
    pub warn_if_renamed: bool,
    pub stage: bool,
    pub list_file: bool,
    pub warn_unreserved: bool,
    pub warn_skipped: bool,
}

pub open spec fn spec_no_action() -> ImportItemAction {
    ImportItemAction {
        read_source: false,
        choose_target: None,
        reserve: false,
        warn_if_renamed: false,
        stage: false,
        list_file: false,
        warn_unreserved: false,
        warn_skipped: false,
    }
}

/// The next state and action for one requested asset. An unreadable source
/// still takes a vault path when one can be chosen, and is skipped; a
/// readable one that gets no vault path is left out with a warning; one
/// whose content is already at its vault path is listed without staging;
/// one whose staging fails is skipped but keeps its path.
pub open spec fn spec_import_item_step(state: ImportItemState, event: ImportItemEvent) -> (ImportItemState, ImportItemAction) {
    let none = spec_no_action();
    match (state, event) {
        (ImportItemState::ReadSource, ImportItemEvent::SourceRead(ok)) => if ok {
            (ImportItemState::ChooseTarget, ImportItemAction { choose_target: Some(true), ..none })
        } else {
            (ImportItemState::ChooseFallback, ImportItemAction { choose_target: Some(false), ..none })
        },
        (ImportItemState::ChooseTarget, ImportItemEvent::TargetChosen(r)) => match r {
            None => (ImportItemState::Finished, ImportItemAction { warn_unreserved: true, ..none }),
            Some(true) => (
                ImportItemState::Finished,
                ImportItemAction { reserve: true, warn_if_renamed: true, list_file: true, ..none },
            ),
            Some(false) => (
                ImportItemState::StageFile,
                ImportItemAction { reserve: true, warn_if_renamed: true, stage: true, ..none },
            ),
        },
        (ImportItemState::ChooseFallback, ImportItemEvent::TargetChosen(r)) => match r {
            None => (ImportItemState::Finished, ImportItemAction { warn_unreserved: true, warn_skipped: true, ..none }),
            Some(_) => (ImportItemState::Finished, ImportItemAction { reserve: true, warn_skipped: true, ..none }),
        },
        (ImportItemState::StageFile, ImportItemEvent::Staged(ok)) => if ok {
            (ImportItemState::Finished, ImportItemAction { list_file: true, ..none })
        } else {
            (ImportItemState::Finished, ImportItemAction { warn_skipped: true, ..none })
        },
        _ => (state, none),
    }
}

/// Where the import of one requested asset starts: its source is read.
pub fn import_item_start() -> (r: (ImportItemState, ImportItemAction))
    ensures
        r == (ImportItemState::ReadSource, ImportItemAction { read_source: true, ..spec_no_action() }),
{
    (
        ImportItemState::ReadSource,
        ImportItemAction {
            read_source: true,
            choose_target: None,
            reserve: false,
            warn_if_renamed: false,
            stage: false,
            list_file: false,
            warn_unreserved: false,
            warn_skipped: false,
        },
    )
}

/// The next state and action for one requested asset after `event`.
pub fn import_item_step(state: ImportItemState, event: ImportItemEvent) -> (r: (ImportItemState, ImportItemAction))
    ensures
        r == spec_import_item_step(state, event),
{
    let none = ImportItemAction {
        read_source: false,
        choose_target: None,
        reserve: false,
        warn_if_renamed: false,
        stage: false,
        list_file: false,
        warn_unreserved: false,
        warn_skipped: false,
    };
    match (state, event) {
        (ImportItemState::ReadSource, ImportItemEvent::SourceRead(ok)) => if ok {
            (ImportItemState::ChooseTarget, ImportItemAction { choose_target: Some(true), ..none })
        } else {
            (ImportItemState::ChooseFallback, ImportItemAction { choose_target: Some(false), ..none })
        },
        (ImportItemState::ChooseTarget, ImportItemEvent::TargetChosen(r)) => match r {
            None => (ImportItemState::Finished, ImportItemAction { warn_unreserved: true, ..none }),
            Some(true) => (
                ImportItemState::Finished,
                ImportItemAction { reserve: true, warn_if_renamed: true, list_file: true, ..none },
            ),
            Some(false) => (
                ImportItemState::StageFile,
                ImportItemAction { reserve: true, warn_if_renamed: true, stage: true, ..none },
            ),
        },
        (ImportItemState::ChooseFallback, ImportItemEvent::TargetChosen(r)) => match r {
            None => (ImportItemState::Finished, ImportItemAction { warn_unreserved: true, warn_skipped: true, ..none }),
            Some(_) => (ImportItemState::Finished, ImportItemAction { reserve: true, warn_skipped: true, ..none }),
        },
        (ImportItemState::StageFile, ImportItemEvent::Staged(ok)) => if ok {
            (ImportItemState::Finished, ImportItemAction { list_file: true, ..none })
        } else {
            (ImportItemState::Finished, ImportItemAction { warn_skipped: true, ..none })
        },
        _ => (state, none),
    }
}

} // verus!
