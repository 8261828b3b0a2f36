//! Checks on folders the user picks: a vault to open or import, a parent for
//! a new vault or an export. What the file system reports of a folder is
//! handed in as a `FolderProbe`; these rules decide what is accepted.
#![verifier::loop_isolation(false)]

use crate::frontmatter::strings_view;
use crate::names::{is_reserved_workspace_directory, spec_is_reserved_workspace_directory};
use crate::text::{chars_eq, chars_of, concat2, concat3, owned, spec_trim, trim};
use vstd::prelude::*;

verus! {

/// What `symlink_metadata` reports of a path's kind.
#[derive(Debug, Clone, Copy, PartialEq, Eq, Structural)]
pub enum EntryType {
    Symlink,
    Directory,
    File,
}

/// A folder after symbolic links and `..` were resolved: whether it has a
/// parent (the file-system root has none) and its last component.
#[derive(Debug, Clone, PartialEq, Eq)]
pub struct CanonicalFolder {
    pub has_parent: bool,
    pub file_name: Option<String>,
}

/// What the file system reports of a chosen folder: whether the path is
/// absolute, the kind of entry it names (or why that could not be read),
/// and its resolved form (or why it could not be resolved).
#[derive(Debug)]
pub struct FolderProbe {
    pub is_absolute: bool,
    pub entry: Result<EntryType, String>,
    pub canonical: Result<CanonicalFolder, String>,
}

/// The messages a folder check reports, in the order its checks run.
pub struct FolderMessages {
    pub blank: Seq<char>,
    pub relative: Seq<char>,
    pub unreadable: Seq<char>,
    pub symlink: Seq<char>,
    pub not_folder: Seq<char>,
    pub unresolved: Seq<char>,
}

/// The common checks on a chosen folder: not blank, absolute, readable, not
/// a symbolic link, a folder, and resolvable. When `symlink` and
/// `not_folder` are one message, a link and a non-folder are one refusal.
pub open spec fn spec_check_folder(input: Seq<char>, probe: FolderProbe, m: FolderMessages) -> Result<(), Seq<char>> {
    if spec_trim(input).len() == 0 {
        Err(m.blank)
    } else {
        spec_check_folder_path(probe, m)
    }
}

/// The checks on a chosen folder once it is known not to be blank.
pub open spec fn spec_check_folder_path(probe: FolderProbe, m: FolderMessages) -> Result<(), Seq<char>> {
    if !probe.is_absolute {
        Err(m.relative)
    } else {
        match probe.entry {
            Err(e) => Err(m.unreadable + e@),
            Ok(EntryType::Symlink) => Err(m.symlink),
            Ok(EntryType::File) => Err(m.not_folder),
            Ok(EntryType::Directory) => match probe.canonical {
                Err(e) => Err(m.unresolved + e@),
                Ok(_) => Ok(()),
            },
        }
    }
}

pub open spec fn view_unit_result(r: Result<(), String>) -> Result<(), Seq<char>> {
    match r {
        Ok(()) => Ok(()),
        Err(e) => Err(e@),
    }
}

fn check_folder_path(probe: &FolderProbe, relative: &str, unreadable: &str, symlink: &str, not_folder: &str, unresolved: &str) -> (r: Result<(), String>)
    ensures
        view_unit_result(r) == spec_check_folder_path(
            *probe,
            FolderMessages { blank: Seq::empty(), relative: relative@, unreadable: unreadable@, symlink: symlink@, not_folder: not_folder@, unresolved: unresolved@ },
        ),
{
    if !probe.is_absolute {
        return Err(owned(relative));
    }
    match &probe.entry {
        Err(e) => Err(concat2(unreadable, &chars_of(e.as_str()))),
        Ok(EntryType::Symlink) => Err(owned(symlink)),
        Ok(EntryType::File) => Err(owned(not_folder)),
        Ok(EntryType::Directory) => match &probe.canonical {
            Err(e) => Err(concat2(unresolved, &chars_of(e.as_str()))),
            Ok(_) => Ok(()),
        },
    }
}

fn is_blank(input: &str) -> (r: bool)
    ensures
        r == (spec_trim(input@).len() == 0),
{
    trim(&chars_of(input)).len() == 0
}

pub open spec fn spec_workspace_root_messages() -> FolderMessages {
    FolderMessages {
        blank: "Choose a vault folder."@,
        relative: "The vault path must be absolute."@,
        unreadable: "The vault folder could not be opened: "@,
        symlink: "The vault folder cannot be a symbolic link."@,
        not_folder: "The vault path is not a folder."@,
        unresolved: "The vault folder could not be resolved: "@,
    }
}

/// The checks on a folder to be opened as a vault: the common ones, then
/// its resolved form may be neither the file-system root nor a reserved
/// app, Obsidian, trash or Git folder.
pub open spec fn spec_workspace_root_path(probe: FolderProbe) -> Result<(), Seq<char>> {
    match spec_check_folder_path(probe, spec_workspace_root_messages()) {
        Err(e) => Err(e),
        Ok(()) => {
            let c = probe.canonical->Ok_0;
            if !c.has_parent {
                Err("The filesystem root cannot be used as a vault."@)
            } else if c.file_name matches Some(n) && spec_is_reserved_workspace_directory(n@) {
                Err("An app settings, trash, or Git folder cannot be opened as a vault."@)
            } else {
                Ok(())
            }
        },
    }
}

/// Checks a folder to be opened as a vault.
pub fn validate_workspace_root_path(probe: &FolderProbe) -> (r: Result<(), String>)
    ensures
        view_unit_result(r) == spec_workspace_root_path(*probe),
{
    match check_folder_path(
        probe,
        "The vault path must be absolute.",
        "The vault folder could not be opened: ",
        "The vault folder cannot be a symbolic link.",
        "The vault path is not a folder.",
        "The vault folder could not be resolved: ",
    ) {
        Err(e) => return Err(e),
        Ok(()) => {},
    }
    match &probe.canonical {
        Err(_) => Ok(()),
        Ok(c) => {
            if !c.has_parent {
                return Err(owned("The filesystem root cannot be used as a vault."));
            }
            match &c.file_name {
                Some(n) => if is_reserved_workspace_directory(n.as_str()) {
                    Err(owned("An app settings, trash, or Git folder cannot be opened as a vault."))
                } else {
                    Ok(())
                },
                None => Ok(()),
            }
        },
    }
}

/// The checks on the text typed or picked as a vault folder.
pub open spec fn spec_workspace_root(input: Seq<char>, probe: FolderProbe) -> Result<(), Seq<char>> {
    if spec_trim(input).len() == 0 {
        Err("Choose a vault folder."@)
    } else {
        spec_workspace_root_path(probe)
    }
}

/// Checks the folder chosen as a vault.
pub fn validate_workspace_root(input: &str, probe: &FolderProbe) -> (r: Result<(), String>)
    ensures
        view_unit_result(r) == spec_workspace_root(input@, *probe),
{
    if is_blank(input) {
        return Err(owned("Choose a vault folder."));
    }
    validate_workspace_root_path(probe)
}

pub open spec fn spec_parent_directory_messages() -> FolderMessages {
    FolderMessages {
        blank: "Choose a parent folder for the new vault."@,
        relative: "The parent folder path must be absolute."@,
        unreadable: "The parent folder could not be opened: "@,
        symlink: "The parent path must be a regular folder, not a symbolic link."@,
        not_folder: "The parent path must be a regular folder, not a symbolic link."@,
        unresolved: "The parent folder could not be resolved: "@,
    }
}

/// Checks the folder chosen to hold a new vault.
pub fn validate_parent_directory(input: &str, probe: &FolderProbe) -> (r: Result<(), String>)
    ensures
        view_unit_result(r) == spec_check_folder(input@, *probe, spec_parent_directory_messages()),
{
    if is_blank(input) {
        return Err(owned("Choose a parent folder for the new vault."));
    }
    check_folder_path(
        probe,
        "The parent folder path must be absolute.",
        "The parent folder could not be opened: ",
        "The parent path must be a regular folder, not a symbolic link.",
        "The parent path must be a regular folder, not a symbolic link.",
        "The parent folder could not be resolved: ",
    )
}

pub open spec fn spec_image_import_root_messages() -> FolderMessages {
    FolderMessages {
        blank: "Choose a vault folder to import assets from."@,
        relative: "The asset import path must be absolute."@,
        unreadable: "The asset import folder could not be opened: "@,
        symlink: "The asset import folder cannot be a symbolic link."@,
        not_folder: "The asset import path is not a folder."@,
        unresolved: "The asset import folder could not be resolved: "@,
    }
}

/// Checks the folder that images and attachments are imported from.
pub fn validate_image_import_root(input: &str, probe: &FolderProbe) -> (r: Result<(), String>)
    ensures
        view_unit_result(r) == spec_check_folder(input@, *probe, spec_image_import_root_messages()),
{
    if is_blank(input) {
        return Err(owned("Choose a vault folder to import assets from."));
    }
    check_folder_path(
        probe,
        "The asset import path must be absolute.",
        "The asset import folder could not be opened: ",
        "The asset import folder cannot be a symbolic link.",
        "The asset import path is not a folder.",
        "The asset import folder could not be resolved: ",
    )
}

pub open spec fn spec_import_root_messages() -> FolderMessages {
    FolderMessages {
        blank: "Choose an Obsidian vault folder to import."@,
        relative: "The vault path must be absolute."@,
        unreadable: "The selected vault could not be opened: "@,
        symlink: "The selected vault folder cannot be a symbolic link."@,
        not_folder: "The selected vault path is not a folder."@,
        unresolved: "The selected vault could not be resolved: "@,
    }
}

/// Checks the Obsidian vault chosen for import (or as an export's source).
pub fn validate_import_root(input: &str, probe: &FolderProbe) -> (r: Result<(), String>)
    ensures
        view_unit_result(r) == spec_check_folder(input@, *probe, spec_import_root_messages()),
{
    if is_blank(input) {
        return Err(owned("Choose an Obsidian vault folder to import."));
    }
    check_folder_path(
        probe,
        "The vault path must be absolute.",
        "The selected vault could not be opened: ",
        "The selected vault folder cannot be a symbolic link.",
        "The selected vault path is not a folder.",
        "The selected vault could not be resolved: ",
    )
}

pub open spec fn spec_export_parent_messages() -> FolderMessages {
    FolderMessages {
        blank: "Choose a destination folder for the export."@,
        relative: "The export destination must be an absolute path."@,
        unreadable: "The export destination could not be opened: "@,
        symlink: "The export destination cannot be a symbolic link."@,
        not_folder: "The export destination is not a folder."@,
        unresolved: "The export destination could not be resolved: "@,
    }
}

/// Checks the folder an export is written into.
pub fn validate_export_parent(input: &str, probe: &FolderProbe) -> (r: Result<(), String>)
    ensures
        view_unit_result(r) == spec_check_folder(input@, *probe, spec_export_parent_messages()),
{
    if is_blank(input) {
        return Err(owned("Choose a destination folder for the export."));
    }
    check_folder_path(
        probe,
        "The export destination must be an absolute path.",
        "The export destination could not be opened: ",
        "The export destination cannot be a symbolic link.",
        "The export destination is not a folder.",
        "The export destination could not be resolved: ",
    )
}

// ---------------------------------------------------------------------------
// Vaults inside vaults
// ---------------------------------------------------------------------------

/// Whether the components `a` begin the components `b` (`Path::starts_with`).
pub open spec fn spec_starts_with_components(b: Seq<Seq<char>>, a: Seq<Seq<char>>) -> bool {
    a.len() <= b.len() && b.take(a.len() as int) == a
}

/// Whether a vault at `root` would clash with a registered vault at
/// `registered`: the same folder (unless reopening it is allowed), or one
/// inside the other.
pub open spec fn spec_vaults_clash(root: Seq<Seq<char>>, registered: Seq<Seq<char>>, allow_same: bool) -> bool {
    if root == registered && allow_same {
        false
    } else {
        root == registered || spec_starts_with_components(root, registered) || spec_starts_with_components(registered, root)
    }
}

/// A registered vault's folder, resolved, and how it is shown.
#[derive(Debug, Clone, PartialEq, Eq)]
pub struct RegisteredRoot {
    pub components: Vec<String>,
    pub display: String,
}

pub open spec fn spec_first_clash(root: Seq<Seq<char>>, registered: Seq<RegisteredRoot>, allow_same: bool, i: int) -> int
    decreases registered.len() - i,
{
    if i < 0 || i >= registered.len() {
        -1
    } else if spec_vaults_clash(root, strings_view(registered[i].components@), allow_same) {
        i
    } else {
        spec_first_clash(root, registered, allow_same, i + 1)
    }
}

/// Refuses a vault folder inside or around a registered vault.
pub open spec fn spec_reject_nested(root: Seq<Seq<char>>, registered: Seq<RegisteredRoot>, allow_same: bool) -> Result<(), Seq<char>> {
    let i = spec_first_clash(root, registered, allow_same, 0);
    if i < 0 {
        Ok(())
    } else {
        Err("Vaults cannot be nested. Choose a folder outside "@ + registered[i].display@ + "."@)
    }
}

/// Whether the registered vault at position `i` clashes with `root`.
pub open spec fn spec_clashes_at(root: Seq<Seq<char>>, registered: Seq<RegisteredRoot>, allow_same: bool, i: int) -> bool {
    spec_vaults_clash(root, strings_view(registered[i].components@), allow_same)
}

proof fn lemma_first_clash_from(root: Seq<Seq<char>>, registered: Seq<RegisteredRoot>, allow_same: bool, k: int)
    requires
        0 <= k <= registered.len(),
    ensures
        ({
            let f = spec_first_clash(root, registered, allow_same, k);
            ||| f == -1 && forall|j: int| k <= j < registered.len() ==> !#[trigger] spec_clashes_at(root, registered, allow_same, j)
            ||| k <= f < registered.len() && spec_clashes_at(root, registered, allow_same, f)
                && forall|j: int| k <= j < f ==> !#[trigger] spec_clashes_at(root, registered, allow_same, j)
        }),
    decreases registered.len() - k,
{
    if k < registered.len() && !spec_clashes_at(root, registered, allow_same, k) {
        lemma_first_clash_from(root, registered, allow_same, k + 1);
    }
}

/// A vault folder is refused exactly when it clashes with some registered
/// vault, wherever that vault stands in the list: the refusal names the
/// first such vault, and a folder that clashes with none is accepted.
pub proof fn lemma_nested_vault_refused_iff_some_clash(
    root: Seq<Seq<char>>,
    registered: Seq<RegisteredRoot>,
    allow_same: bool,
)
    ensures
        spec_reject_nested(root, registered, allow_same) is Ok <==> forall|j: int|
            0 <= j < registered.len() ==> !#[trigger] spec_clashes_at(root, registered, allow_same, j),
        spec_reject_nested(root, registered, allow_same) is Err ==> exists|i: int|
            0 <= i < registered.len() && #[trigger] spec_clashes_at(root, registered, allow_same, i)
                && (forall|j: int| 0 <= j < i ==> !#[trigger] spec_clashes_at(root, registered, allow_same, j))
                && spec_reject_nested(root, registered, allow_same) == Err::<(), Seq<char>>(
                "Vaults cannot be nested. Choose a folder outside "@ + registered[i].display@ + "."@,
            ),
{
    lemma_first_clash_from(root, registered, allow_same, 0);
    let f = spec_first_clash(root, registered, allow_same, 0);
    if f >= 0 {
        assert(spec_clashes_at(root, registered, allow_same, f));
    }
}

fn components_eq(a: &[String], b: &[String], n: usize) -> (r: bool)
    requires
        n <= a.len(),
        n <= b.len(),
    ensures
        r == (strings_view(a@).take(n as int) == strings_view(b@).take(n as int)),
{
    let mut i: usize = 0;
    while i < n
        invariant
            i <= n,
            n <= a.len(),
            n <= b.len(),
            forall|j: int| 0 <= j < i ==> strings_view(a@)[j] == strings_view(b@)[j],
        decreases n - i,
    {
        if !chars_eq(&chars_of(a[i].as_str()), &chars_of(b[i].as_str())) {
            assert(strings_view(a@).take(n as int)[i as int] != strings_view(b@).take(n as int)[i as int]);
            return false;
        }
        i = i + 1;
    }
    assert(strings_view(a@).take(n as int) =~= strings_view(b@).take(n as int));
    true
}

fn starts_with_components(b: &[String], a: &[String]) -> (r: bool)
    ensures
        r == spec_starts_with_components(strings_view(b@), strings_view(a@)),
{
    if a.len() > b.len() {
        return false;
    }
    let r = components_eq(b, a, a.len());
    assert(strings_view(a@).take(a.len() as int) =~= strings_view(a@));
    r
}

fn vaults_clash(root: &[String], registered: &[String], allow_same: bool) -> (r: bool)
    ensures
        r == spec_vaults_clash(strings_view(root@), strings_view(registered@), allow_same),
{
    let same = root.len() == registered.len() && components_eq(root, registered, root.len());
    proof {
        assert(strings_view(root@).take(root.len() as int) =~= strings_view(root@));
        if root.len() == registered.len() {
            assert(strings_view(registered@).take(root.len() as int) =~= strings_view(registered@));
        }
    }
    if same && allow_same {
        return false;
    }
    same || starts_with_components(root, registered) || starts_with_components(registered, root)
}

/// Refuses a vault folder (`root`, resolved, by its components) that is a
/// registered vault (unless `allow_same`), lies inside one, or holds one.
pub fn reject_nested_registered_vault(root: &[String], registered: &[RegisteredRoot], allow_same: bool) -> (r: Result<(), String>)
    ensures
        view_unit_result(r) == spec_reject_nested(strings_view(root@), registered@, allow_same),
        r is Ok <==> forall|j: int|
            0 <= j < registered@.len() ==> !#[trigger] spec_clashes_at(strings_view(root@), registered@, allow_same, j),
{
    proof {
        lemma_nested_vault_refused_iff_some_clash(strings_view(root@), registered@, allow_same);
    }
    let mut i: usize = 0;
    while i < registered.len()
        invariant
            i <= registered.len(),
            spec_first_clash(strings_view(root@), registered@, allow_same, 0) == spec_first_clash(
                strings_view(root@),
                registered@,
                allow_same,
                i as int,
            ),
        decreases registered.len() - i,
    {
        if vaults_clash(root, &registered[i].components, allow_same) {
            return Err(concat3(
                "Vaults cannot be nested. Choose a folder outside ",
                &chars_of(registered[i].display.as_str()),
                ".",
            ));
        }
        i = i + 1;
    }
    Ok(())
}

/// Refuses the home folder as a vault. `home` is the home folder, resolved,
/// by its components (`None` when it cannot be resolved), or why it could
/// not be located.
pub fn reject_home_vault(home: &Result<Option<Vec<String>>, String>, root: &[String]) -> (r: Result<(), String>)
    ensures
        view_unit_result(r) == match home {
            Err(e) => Err("Could not resolve the home folder: "@ + e@),
            Ok(Some(h)) => if strings_view(h@) == strings_view(root@) {
                Err("Your home folder is too broad to use as a vault. Create or choose a dedicated folder inside it instead."@)
            } else {
                Ok(())
            },
            Ok(None) => Ok(()),
        },
{
    match home {
        Err(e) => Err(concat2("Could not resolve the home folder: ", &chars_of(e.as_str()))),
        Ok(Some(h)) => {
            let same = h.len() == root.len() && components_eq(h, root, h.len());
            proof {
                assert(strings_view(h@).take(h.len() as int) =~= strings_view(h@));
                if h.len() == root.len() {
                    assert(strings_view(root@).take(h.len() as int) =~= strings_view(root@));
                }
            }
            if same {
                Err(owned(
                    "Your home folder is too broad to use as a vault. Create or choose a dedicated folder inside it instead.",
                ))
            } else {
                Ok(())
            }
        },
        Ok(None) => Ok(()),
    }
}


// ---------------------------------------------------------------------------
// Files picked to be copied into a vault
// ---------------------------------------------------------------------------

/// What the file system reports of a picked file: whether the path is
/// absolute, its last component when that is valid Unicode, its kind and
/// size (or why they could not be read), and whether it could be resolved.
#[derive(Debug)]
pub struct FileProbe {
    pub is_absolute: bool,
    pub file_name: Option<String>,
    pub entry: Result<(EntryType, u64), String>,
    pub canonical: Result<(), String>,
}

/// The checks on an image picked to be embedded: absolute, readable, a
/// regular file, at most 50 MiB, and resolvable.
pub open spec fn spec_image_source_path(probe: FileProbe) -> Result<(), Seq<char>> {
    if !probe.is_absolute {
        Err("The selected image path must be absolute."@)
    } else {
        match probe.entry {
            Err(e) => Err("The selected image could not be opened: "@ + e@),
            Ok((kind, length)) => if kind != EntryType::File {
                Err("Choose a regular image file, not a symbolic link."@)
            } else if length > crate::media::MAX_IMAGE_BYTES {
                Err("The selected image is larger than 50 MiB."@)
            } else {
                match probe.canonical {
                    Err(e) => Err("The selected image could not be resolved: "@ + e@),
                    Ok(()) => Ok(()),
                }
            },
        }
    }
}

/// Checks an image picked to be embedded.
pub fn validate_image_source_path(probe: &FileProbe) -> (r: Result<(), String>)
    ensures
        view_unit_result(r) == spec_image_source_path(*probe),
{
    if !probe.is_absolute {
        return Err(owned("The selected image path must be absolute."));
    }
    match &probe.entry {
        Err(e) => Err(concat2("The selected image could not be opened: ", &chars_of(e.as_str()))),
        Ok((kind, length)) => if *kind != EntryType::File {
            Err(owned("Choose a regular image file, not a symbolic link."))
        } else if *length > crate::media::MAX_IMAGE_BYTES {
            Err(owned("The selected image is larger than 50 MiB."))
        } else {
            match &probe.canonical {
                Err(e) => Err(concat2("The selected image could not be resolved: ", &chars_of(e.as_str()))),
                Ok(()) => Ok(()),
            }
        },
    }
}

/// Checks the text given as an image to embed, then the image itself.
pub fn validate_image_source_file(input: &str, probe: &FileProbe) -> (r: Result<(), String>)
    ensures
        view_unit_result(r) == if spec_trim(input@).len() == 0 {
            Err("Choose an image file."@)
        } else {
            spec_image_source_path(*probe)
        },
{
    if is_blank(input) {
        return Err(owned("Choose an image file."));
    }
    validate_image_source_path(probe)
}

/// The checks on a file picked to be embedded as an attachment: absolute,
/// named in Unicode with a name fit for an attachment, readable, a regular
/// file, at most 4 GiB, and resolvable.
pub open spec fn spec_attachment_source_path(probe: FileProbe) -> Result<(), Seq<char>> {
    if !probe.is_absolute {
        Err("The selected attachment path must be absolute."@)
    } else {
        match probe.file_name {
            None => Err("The selected attachment name is not valid Unicode."@),
            Some(name) => match crate::workspace_paths::spec_attachment_relative_path_error(name@) {
                Some(e) => Err(e),
                None => match probe.entry {
                    Err(e) => Err("The selected attachment could not be opened: "@ + e@),
                    Ok((kind, length)) => if kind != EntryType::File {
                        Err("Choose a regular file, not a folder, symbolic link, or special file."@)
                    } else if length > crate::media::MAX_ATTACHMENT_BYTES {
                        Err("The selected attachment is larger than 4 GiB."@)
                    } else {
                        match probe.canonical {
                            Err(e) => Err("The selected attachment could not be resolved: "@ + e@),
                            Ok(()) => Ok(()),
                        }
                    },
                },
            },
        }
    }
}

/// Checks a file picked to be embedded as an attachment.
pub fn validate_attachment_source_path(probe: &FileProbe) -> (r: Result<(), String>)
    ensures
        view_unit_result(r) == spec_attachment_source_path(*probe),
{
    if !probe.is_absolute {
        return Err(owned("The selected attachment path must be absolute."));
    }
    let name = match &probe.file_name {
        None => return Err(owned("The selected attachment name is not valid Unicode.")),
        Some(n) => n,
    };
    match crate::workspace_paths::validate_attachment_relative_path(name.as_str()) {
        Err(e) => return Err(e),
        Ok(()) => {},
    }
    match &probe.entry {
        Err(e) => Err(concat2("The selected attachment could not be opened: ", &chars_of(e.as_str()))),
        Ok((kind, length)) => if *kind != EntryType::File {
            Err(owned("Choose a regular file, not a folder, symbolic link, or special file."))
        } else if *length > crate::media::MAX_ATTACHMENT_BYTES {
            Err(owned("The selected attachment is larger than 4 GiB."))
        } else {
            match &probe.canonical {
                Err(e) => Err(concat2("The selected attachment could not be resolved: ", &chars_of(e.as_str()))),
                Ok(()) => Ok(()),
            }
        },
    }
}

/// Checks the text given as a file to embed, then the file itself.
pub fn validate_attachment_source_file(input: &str, probe: &FileProbe) -> (r: Result<(), String>)
    ensures
        view_unit_result(r) == if spec_trim(input@).len() == 0 {
            Err("Choose a file to embed."@)
        } else {
            spec_attachment_source_path(*probe)
        },
{
    if is_blank(input) {
        return Err(owned("Choose a file to embed."));
    }
    validate_attachment_source_path(probe)
}

} // verus!
