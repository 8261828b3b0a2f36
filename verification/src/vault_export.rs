//! Writing a portable Obsidian vault: the folder and file names an export
//! uses, and what each exported note, template and snippet becomes. Files
//! are created by the caller, which never reuses an existing name.
#![verifier::loop_isolation(false)]

use crate::encoding::{decimal, spec_decimal};
use crate::file_names::{
    export_file_stem, spec_export_file_stem, spec_strip_extension, spec_strip_extension_ok,
    strip_extension_case_insensitive,
};
use crate::frontmatter::{render_note_markdown, spec_render_note_markdown, strings_view};
use crate::model::{ExportNote, ExportTemplate, VaultSnippet};
use crate::text::{chars_of, extend_chars, spec_trim, string_of};
use crate::vault_import::MAX_NOTE_BYTES;
use crate::vault_import::MAX_SNIPPET_BYTES;
use crate::vault_paths::{checked_relative_folder, spec_checked_relative_folder};
use vstd::prelude::*;

verus! {

/// How Rust's `Debug` formatting shows a string: quoted, with quotes,
/// backslashes and unprintable characters escaped.
pub uninterp spec fn spec_debug_quoted(s: Seq<char>) -> Seq<char>;

/// Shows a string as `{:?}` does.
///
/// Trusted: formats with `format!("{:?}", ..)`, std's `Debug` for `str`;
/// the contract only names the result as a function of the text, since the
/// escaping rules take more than a few lines to state.
#[verifier::external_body]
fn debug_quoted(s: &str) -> (r: String)
    ensures
        r@ == spec_debug_quoted(s@),
{
    format!("{:?}", s)
}

/// The `index`-th name tried for a new export folder: the vault's name
/// first, then `name (1)`, `name (2)` and so on.
pub open spec fn spec_export_dir_name(name: Seq<char>, index: nat) -> Seq<char> {
    if index == 0 {
        name
    } else {
        name + " ("@ + spec_decimal(index) + ")"@
    }
}

/// The `index`-th name tried for a new export folder.
pub fn export_dir_name(name: &str, index: u32) -> (r: String)
    ensures
        r@ == spec_export_dir_name(name@, index as nat),
{
    if index == 0 {
        return crate::text::owned(name);
    }
    let mut v = chars_of(name);
    extend_chars(&mut v, &chars_of(" ("));
    extend_chars(&mut v, &decimal(index as u64));
    extend_chars(&mut v, &chars_of(")"));
    string_of(&v)
}

/// The `index`-th file name tried for an exported text file: `stem.ext`
/// first, then `stem 1.ext`, `stem 2.ext` and so on.
pub open spec fn spec_unique_text_file_name(stem: Seq<char>, extension: Seq<char>, index: nat) -> Seq<char> {
    if index == 0 {
        stem + seq!['.'] + extension
    } else {
        stem + seq![' '] + spec_decimal(index) + seq!['.'] + extension
    }
}

/// The `index`-th file name tried for an exported text file.
pub fn unique_text_file_name(stem: &str, extension: &str, index: u32) -> (r: String)
    ensures
        r@ == spec_unique_text_file_name(stem@, extension@, index as nat),
{
    let mut v = chars_of(stem);
    if index > 0 {
        v.push(' ');
        extend_chars(&mut v, &decimal(index as u64));
    }
    v.push('.');
    extend_chars(&mut v, &chars_of(extension));
    string_of(&v)
}

/// What an exported note becomes: the folder it goes in, the file stem it
/// is written under, and its Markdown.
#[derive(Debug, Clone, PartialEq, Eq)]
pub struct ExportedNotePlan {
    pub folder: String,
    pub stem: String,
    pub markdown: String,
}

/// What an exported note becomes, or the warning it is skipped with: a note
/// over 10 MiB or with an unsafe folder is skipped; otherwise it goes in its
/// folder under a file stem made from its title, with frontmatter added.
pub open spec fn spec_plan_export_note(title: Seq<char>, content: Seq<char>, content_bytes: nat, folder_path: Seq<char>, tags: Seq<Seq<char>>) -> Result<(Seq<char>, Seq<char>, Seq<char>), Seq<char>> {
    if content_bytes > MAX_NOTE_BYTES {
        Err("Skipped note "@ + spec_debug_quoted(title) + " because it is larger than 10 MiB."@)
    } else {
        match spec_checked_relative_folder(folder_path) {
            Err(reason) => Err("Skipped note "@ + spec_debug_quoted(title) + " because its folder path is unsafe: "@ + reason),
            Ok(folder) => Ok((
                folder,
                spec_export_file_stem(title, "Untitled"@),
                spec_render_note_markdown(title, tags, content),
            )),
        }
    }
}

/// What an exported note becomes, or the warning it is skipped with. A note
/// that passes the size and folder checks must have a title whose final
/// `.md` can be cut by byte count.
pub fn plan_export_note(note: &ExportNote) -> (r: Result<ExportedNotePlan, String>)
    requires
        crate::text::spec_utf8_len(note.content@) <= MAX_NOTE_BYTES
            && spec_checked_relative_folder(note.folder_path@) is Ok
            ==> spec_strip_extension_ok(spec_trim(note.title@), "md"@),
    ensures
        match r {
            Ok(p) => spec_plan_export_note(note.title@, note.content@, crate::text::spec_utf8_len(note.content@), note.folder_path@, strings_view(note.tags@))
                == Ok::<(Seq<char>, Seq<char>, Seq<char>), Seq<char>>((p.folder@, p.stem@, p.markdown@)),
            Err(w) => spec_plan_export_note(note.title@, note.content@, crate::text::spec_utf8_len(note.content@), note.folder_path@, strings_view(note.tags@))
                == Err::<(Seq<char>, Seq<char>, Seq<char>), Seq<char>>(w@),
        },
{
    if crate::text::utf8_len_exceeds(&chars_of(note.content.as_str()), MAX_NOTE_BYTES as usize) {
        let mut v = chars_of("Skipped note ");
        extend_chars(&mut v, &chars_of(debug_quoted(note.title.as_str()).as_str()));
        extend_chars(&mut v, &chars_of(" because it is larger than 10 MiB."));
        return Err(string_of(&v));
    }
    let folder = match checked_relative_folder(note.folder_path.as_str()) {
        Err(reason) => {
            let mut v = chars_of("Skipped note ");
            extend_chars(&mut v, &chars_of(debug_quoted(note.title.as_str()).as_str()));
            extend_chars(&mut v, &chars_of(" because its folder path is unsafe: "));
            extend_chars(&mut v, &chars_of(reason.as_str()));
            return Err(string_of(&v));
        },
        Ok(f) => f,
    };
    let stem = export_file_stem(note.title.as_str(), "Untitled");
    let markdown = render_note_markdown(note.title.as_str(), note.tags.as_slice(), note.content.as_str());
    Ok(ExportedNotePlan { folder, stem, markdown })
}


/// The file stem an exported template is written under, or the warning it
/// is skipped with when its content is over 10 MiB.
pub open spec fn spec_plan_export_template(name: Seq<char>, content_bytes: nat) -> Result<Seq<char>, Seq<char>> {
    if content_bytes > MAX_NOTE_BYTES {
        Err("Skipped template "@ + spec_debug_quoted(name) + " because it is larger than 10 MiB."@)
    } else {
        Ok(spec_export_file_stem(name, "Untitled template"@))
    }
}

/// The file stem an exported template is written under, or the warning it
/// is skipped with. A template within the size limit must have a name whose
/// final `.md` can be cut by byte count.
pub fn plan_export_template(template: &ExportTemplate) -> (r: Result<String, String>)
    requires
        crate::text::spec_utf8_len(template.content@) <= MAX_NOTE_BYTES
            ==> spec_strip_extension_ok(spec_trim(template.name@), "md"@),
    ensures
        crate::vault_paths::view_string_result(r) == spec_plan_export_template(template.name@, crate::text::spec_utf8_len(template.content@)),
{
    if crate::text::utf8_len_exceeds(&chars_of(template.content.as_str()), MAX_NOTE_BYTES as usize) {
        let mut v = chars_of("Skipped template ");
        extend_chars(&mut v, &chars_of(debug_quoted(template.name.as_str()).as_str()));
        extend_chars(&mut v, &chars_of(" because it is larger than 10 MiB."));
        return Err(string_of(&v));
    }
    Ok(export_file_stem(template.name.as_str(), "Untitled template"))
}

/// Whether a snippet's name can be made into a file stem without cutting a
/// character apart: its final `.css`, then the `.md` of what is left.
pub open spec fn spec_snippet_name_cuttable(name: Seq<char>) -> bool {
    spec_strip_extension_ok(name, "css"@) && spec_strip_extension_ok(spec_trim(spec_strip_extension(name, "css"@)), "md"@)
}

/// The file stem an exported snippet is written under (its name without
/// `.css`, made safe), or the warning it is skipped with when its CSS is
/// over 5 MiB.
pub open spec fn spec_plan_export_snippet(name: Seq<char>, css_bytes: nat) -> Result<Seq<char>, Seq<char>> {
    if css_bytes > MAX_SNIPPET_BYTES {
        Err("Skipped CSS snippet "@ + spec_debug_quoted(name) + " because it is larger than 5 MiB."@)
    } else {
        Ok(spec_export_file_stem(spec_strip_extension(name, "css"@), "snippet"@))
    }
}

/// The file stem an exported snippet is written under, or the warning it
/// is skipped with. A snippet within the size limit must have a name that
/// can be cut without splitting a character.
pub fn plan_export_snippet(snippet: &VaultSnippet) -> (r: Result<String, String>)
    requires
        crate::text::spec_utf8_len(snippet.css@) <= MAX_SNIPPET_BYTES ==> spec_snippet_name_cuttable(snippet.name@),
    ensures
        crate::vault_paths::view_string_result(r) == spec_plan_export_snippet(snippet.name@, crate::text::spec_utf8_len(snippet.css@)),
{
    if crate::text::utf8_len_exceeds(&chars_of(snippet.css.as_str()), MAX_SNIPPET_BYTES as usize) {
        let mut v = chars_of("Skipped CSS snippet ");
        extend_chars(&mut v, &chars_of(debug_quoted(snippet.name.as_str()).as_str()));
        extend_chars(&mut v, &chars_of(" because it is larger than 5 MiB."));
        return Err(string_of(&v));
    }
    proof {
        reveal_strlit("css");
    }
    let stripped = strip_extension_case_insensitive(snippet.name.as_str(), "css");
    Ok(export_file_stem(stripped.as_str(), "snippet"))
}


/// The folder names an export tries are all different, so an existing
/// folder is never tried twice and never reused.
pub proof fn lemma_export_dir_names_differ(name: Seq<char>, i: nat, j: nat)
    requires
        i != j,
    ensures
        spec_export_dir_name(name, i) != spec_export_dir_name(name, j),
{
    reveal_strlit(" (");
    reveal_strlit(")");
    if i > 0 && j > 0 {
        if spec_export_dir_name(name, i) == spec_export_dir_name(name, j) {
            crate::text::lemma_middle_injective(name + " ("@, spec_decimal(i), spec_decimal(j), ")"@);
            crate::encoding::lemma_decimal_injective(i, j);
        }
    } else if i > 0 {
        crate::encoding::lemma_decimal_nonempty(i);
        assert(spec_export_dir_name(name, i).len() > spec_export_dir_name(name, j).len());
    } else {
        crate::encoding::lemma_decimal_nonempty(j);
        assert(spec_export_dir_name(name, j).len() > spec_export_dir_name(name, i).len());
    }
}

/// The file names tried for an exported text file are all different.
pub proof fn lemma_text_file_names_differ(stem: Seq<char>, extension: Seq<char>, i: nat, j: nat)
    requires
        i != j,
    ensures
        spec_unique_text_file_name(stem, extension, i) != spec_unique_text_file_name(stem, extension, j),
{
    let post = seq!['.'] + extension;
    if i > 0 && j > 0 {
        if spec_unique_text_file_name(stem, extension, i) == spec_unique_text_file_name(stem, extension, j) {
            assert(spec_unique_text_file_name(stem, extension, i) =~= stem + seq![' '] + spec_decimal(i) + post);
            assert(spec_unique_text_file_name(stem, extension, j) =~= stem + seq![' '] + spec_decimal(j) + post);
            crate::text::lemma_middle_injective(stem + seq![' '], spec_decimal(i), spec_decimal(j), post);
            crate::encoding::lemma_decimal_injective(i, j);
        }
    } else if i > 0 {
        crate::encoding::lemma_decimal_nonempty(i);
        assert(spec_unique_text_file_name(stem, extension, i).len() > spec_unique_text_file_name(stem, extension, j).len());
    } else {
        crate::encoding::lemma_decimal_nonempty(j);
        assert(spec_unique_text_file_name(stem, extension, j).len() > spec_unique_text_file_name(stem, extension, i).len());
    }
}


/// The warning given for an asset found once `images` images and
/// `attachments` attachments are listed for export, when there is no room
/// left for it.
pub fn export_asset_limit_warning(images: usize, attachments: usize) -> (r: Option<String>)
    ensures
        match r {
            Some(w) => images + attachments >= crate::vault_import::MAX_IMPORTED_ASSETS
                && w@ == "Only the first 100000 asset files can be transferred."@,
            None => images + attachments < crate::vault_import::MAX_IMPORTED_ASSETS,
        },
{
    if crate::rules::workspace_asset_limit_reached(images, attachments, crate::vault_import::MAX_IMPORTED_ASSETS) {
        Some(crate::text::owned("Only the first 100000 asset files can be transferred."))
    } else {
        None
    }
}

} // verus!
