//! Which entries a walk through a vault folder visits: reserved folders,
//! symbolic links and other vaults nested inside are left out.
#![verifier::loop_isolation(false)]

use crate::names::{is_reserved_workspace_directory_chars, spec_is_reserved_workspace_directory};
use crate::text::{chars_eq, chars_of, eq_ignore_ascii_case, spec_eq_ignore_ascii_case};
use vstd::prelude::*;

verus! {

/// The folder inside a vault that holds the app's own data.
pub open spec fn spec_state_directory() -> Seq<char> {
    ".obsidian-at-home"@
}

/// The workspace state file inside that folder.
pub open spec fn spec_state_file() -> Seq<char> {
    "state.json"@
}

/// What a walk knows of an entry: its depth below the folder walked (0 for
/// the folder itself), its kind, its file name and the components of its
/// full path.
#[derive(Debug, Clone, PartialEq, Eq)]
pub struct WalkEntry {
    pub depth: usize,
    pub is_symlink: bool,
    pub is_dir: bool,
    pub name: String,
    pub path_components: Vec<String>,
}

/// Whether an imported vault's walk enters an entry: symbolic links and the
/// `.obsidian`, `.git`, `.trash` and `.obsidian-at-home` folders are skipped.
pub open spec fn spec_should_visit_note_entry(depth: usize, is_symlink: bool, is_dir: bool, name: Seq<char>) -> bool {
    if depth == 0 {
        true
    } else if is_symlink {
        false
    } else if is_dir {
        !spec_eq_ignore_ascii_case(name, ".obsidian"@) && !spec_eq_ignore_ascii_case(name, ".git"@)
            && !spec_eq_ignore_ascii_case(name, ".trash"@) && !spec_eq_ignore_ascii_case(
            name,
            spec_state_directory(),
        )
    } else {
        true
    }
}

/// Whether an imported vault's walk enters an entry.
pub fn should_visit_note_entry(entry: &WalkEntry) -> (r: bool)
    ensures
        r == spec_should_visit_note_entry(entry.depth, entry.is_symlink, entry.is_dir, entry.name@),
{
    if entry.depth == 0 {
        return true;
    }
    if entry.is_symlink {
        return false;
    }
    if entry.is_dir {
        let name = chars_of(entry.name.as_str());
        return !eq_ignore_ascii_case(&name, &chars_of(".obsidian")) && !eq_ignore_ascii_case(
            &name,
            &chars_of(".git"),
        ) && !eq_ignore_ascii_case(&name, &chars_of(".trash")) && !eq_ignore_ascii_case(
            &name,
            &chars_of(".obsidian-at-home"),
        );
    }
    true
}

/// Whether a folder met in a walk is another vault: it holds a real
/// `.obsidian-at-home` folder with a regular `state.json` in it.
pub open spec fn spec_is_nested_vault_directory(depth: usize, is_dir: bool, state_directory_is_folder: bool, state_file_is_regular: bool) -> bool {
    depth != 0 && is_dir && state_directory_is_folder && state_file_is_regular
}

/// Whether a folder met in a walk is another vault. The caller tells
/// whether its `.obsidian-at-home` is a folder (not a link) and whether
/// the `state.json` in it is a regular file (not a link).
pub fn is_nested_vault_directory(entry: &WalkEntry, state_directory_is_folder: bool, state_file_is_regular: bool) -> (r: bool)
    ensures
        r == spec_is_nested_vault_directory(entry.depth, entry.is_dir, state_directory_is_folder, state_file_is_regular),
{
    if entry.depth == 0 || !entry.is_dir {
        return false;
    }
    state_directory_is_folder && state_file_is_regular
}

/// Whether any entry of a walked folder is a nested vault.
pub fn directory_contains_nested_vault(nested: &[bool]) -> (r: bool)
    ensures
        r == nested@.contains(true),
{
    let mut i: usize = 0;
    while i < nested.len()
        invariant
            i <= nested.len(),
            forall|j: int| 0 <= j < i ==> !nested@[j],
        decreases nested.len() - i,
    {
        if nested[i] {
            return true;
        }
        i = i + 1;
    }
    false
}

/// Whether the walk of an open vault enters an entry: symbolic links,
/// nested vaults and the reserved folders are skipped.
pub open spec fn spec_should_visit_workspace_entry(depth: usize, is_symlink: bool, is_dir: bool, name: Seq<char>, nested: bool) -> bool {
    if depth == 0 {
        true
    } else if is_symlink || nested {
        false
    } else {
        !is_dir || !spec_is_reserved_workspace_directory(name)
    }
}

/// Whether the walk of an open vault enters an entry; `nested` tells
/// whether the entry is a nested vault.
pub fn should_visit_workspace_entry(entry: &WalkEntry, nested: bool) -> (r: bool)
    ensures
        r == spec_should_visit_workspace_entry(entry.depth, entry.is_symlink, entry.is_dir, entry.name@, nested),
{
    if entry.depth == 0 {
        return true;
    }
    if entry.is_symlink || nested {
        return false;
    }
    !entry.is_dir || !is_reserved_workspace_directory_chars(&chars_of(entry.name.as_str()))
}

/// Whether the walk that fingerprints a vault's revision enters an entry:
/// inside `.obsidian-at-home` only that folder and its `state.json`; outside
/// it every file and every folder but `.obsidian`, `.trash` and `.git`.
pub open spec fn spec_should_visit_revision_entry(depth: usize, is_symlink: bool, is_dir: bool, name: Seq<char>, components: Seq<Seq<char>>, nested: bool) -> bool {
    if depth == 0 {
        true
    } else if is_symlink || nested {
        false
    } else if components.contains(spec_state_directory()) {
        if depth == 1 && spec_eq_ignore_ascii_case(name, spec_state_directory()) {
            true
        } else {
            depth == 2 && !is_dir && spec_eq_ignore_ascii_case(name, spec_state_file())
        }
    } else if !is_dir {
        true
    } else {
        !spec_eq_ignore_ascii_case(name, ".obsidian"@) && !spec_eq_ignore_ascii_case(name, ".trash"@)
            && !spec_eq_ignore_ascii_case(name, ".git"@)
    }
}

fn has_component(components: &[String], wanted: &[char]) -> (r: bool)
    ensures
        r == crate::frontmatter::strings_view(components@).contains(wanted@),
{
    let mut i: usize = 0;
    while i < components.len()
        invariant
            i <= components.len(),
            forall|j: int| 0 <= j < i ==> crate::frontmatter::strings_view(components@)[j] != wanted@,
        decreases components.len() - i,
    {
        if chars_eq(&chars_of(components[i].as_str()), wanted) {
            assert(crate::frontmatter::strings_view(components@)[i as int] == wanted@);
            return true;
        }
        i = i + 1;
    }
    false
}

/// Whether the revision walk enters an entry; `nested` tells whether the
/// entry is a nested vault.
pub fn should_visit_revision_entry(entry: &WalkEntry, nested: bool) -> (r: bool)
    ensures
        r == spec_should_visit_revision_entry(
            entry.depth,
            entry.is_symlink,
            entry.is_dir,
            entry.name@,
            crate::frontmatter::strings_view(entry.path_components@),
            nested,
        ),
{
    if entry.depth == 0 {
        return true;
    }
    if entry.is_symlink || nested {
        return false;
    }
    let name = chars_of(entry.name.as_str());
    let state_directory = chars_of(".obsidian-at-home");
    if has_component(&entry.path_components, &state_directory) {
        if entry.depth == 1 && eq_ignore_ascii_case(&name, &state_directory) {
            return true;
        }
        return entry.depth == 2 && !entry.is_dir && eq_ignore_ascii_case(&name, &chars_of("state.json"));
    }
    if !entry.is_dir {
        return true;
    }
    !eq_ignore_ascii_case(&name, &chars_of(".obsidian")) && !eq_ignore_ascii_case(
        &name,
        &chars_of(".trash"),
    ) && !eq_ignore_ascii_case(&name, &chars_of(".git"))
}

} // verus!
