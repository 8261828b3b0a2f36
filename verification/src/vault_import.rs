//! Reading an Obsidian vault for import: which files become notes, images
//! or attachments, the limits an import keeps to, and the note records it
//! produces. The walk over the vault's files is done by the caller, which
//! reports each file's facts and follows the decisions made here.
#![verifier::loop_isolation(false)]

use crate::frontmatter::{parse_basic_frontmatter, spec_parse_basic_frontmatter, strings_view, view_opt_string};
use crate::media::{
    is_canvas_path, is_markdown_path, is_supported_image_path_impl, spec_is_canvas_path,
    spec_is_markdown_path, spec_is_supported_image_path, MAX_ATTACHMENT_BYTES, MAX_IMAGE_BYTES,
};
use crate::model::{ImportedAttachment, ImportedImage, ImportedNote, VaultSnippet};
use crate::paths::{extension, file_stem, parent, spec_extension, spec_file_stem, spec_parent};
use crate::text::{chars_eq, chars_of, concat3, eq_ignore_ascii_case, owned, spec_eq_ignore_ascii_case, spec_trim, string_of, trim};
use crate::vault_paths::{
    checked_relative_attachment_path, checked_relative_image_path, spec_checked_relative_attachment_path,
    spec_checked_relative_image_path,
};
use vstd::prelude::*;

verus! {

/// The largest note an import or export reads: 10 MiB.
pub const MAX_NOTE_BYTES: u64 = 10485760;

/// The largest CSS snippet an import or export reads: 5 MiB.
pub const MAX_SNIPPET_BYTES: u64 = 5242880;

/// The most note text one import reads: 512 MiB.
pub const MAX_TOTAL_IMPORT_BYTES: u64 = 536870912;

/// The most image and attachment files one import lists.
pub const MAX_IMPORTED_ASSETS: usize = 100000;

/// The most notes one import reads.
pub const MAX_IMPORTED_NOTES: usize = 100000;

/// The largest `.obsidian/appearance.json` read for enabled snippets: 1 MiB.
pub const MAX_APPEARANCE_BYTES: u64 = 1048576;

/// The name an imported vault is given: its folder's name, or
/// `Imported vault` when that is missing or empty.
pub fn import_vault_name(folder_name: Option<&str>) -> (r: String)
    ensures
        r@ == match folder_name {
            Some(n) => if n@.len() > 0 { n@ } else { "Imported vault"@ },
            None => "Imported vault"@,
        },
{
    match folder_name {
        Some(n) => if n.unicode_len() > 0 {
            owned(n)
        } else {
            owned("Imported vault")
        },
        None => owned("Imported vault"),
    }
}

/// What an imported file is taken for.
#[derive(Debug, Clone, Copy, PartialEq, Eq, Structural)]
pub enum ImportEntryKind {
    /// A Canvas file, which is not imported.
    Canvas,
    Image,
    Attachment,
    Note,
}

/// What an imported file is taken for, by its extension: Canvas files are
/// left out, supported images are images, Markdown files are notes and
/// every other file is an attachment.
pub open spec fn spec_import_entry_kind(path: Seq<char>) -> ImportEntryKind {
    if spec_is_canvas_path(path) {
        ImportEntryKind::Canvas
    } else if spec_is_supported_image_path(path) {
        ImportEntryKind::Image
    } else if !spec_is_markdown_path(path) {
        ImportEntryKind::Attachment
    } else {
        ImportEntryKind::Note
    }
}

/// What an imported file is taken for.
pub fn import_entry_kind(path: &str) -> (r: ImportEntryKind)
    ensures
        r == spec_import_entry_kind(path@),
{
    if is_canvas_path(path) {
        ImportEntryKind::Canvas
    } else if is_supported_image_path_impl(path) {
        ImportEntryKind::Image
    } else if !is_markdown_path(path) {
        ImportEntryKind::Attachment
    } else {
        ImportEntryKind::Note
    }
}

/// The warning given for an asset found once `images` images and
/// `attachments` attachments are listed, when the import has no room left.
pub fn import_asset_limit_warning(images: usize, attachments: usize) -> (r: Option<String>)
    ensures
        match r {
            Some(w) => images + attachments >= MAX_IMPORTED_ASSETS && w@ == "Only the first 100000 asset files can be imported."@,
            None => images + attachments < MAX_IMPORTED_ASSETS,
        },
{
    if crate::rules::workspace_asset_limit_reached(images, attachments, MAX_IMPORTED_ASSETS) {
        Some(owned("Only the first 100000 asset files can be imported."))
    } else {
        None
    }
}

/// The warning that ends the import when `notes` notes were already read
/// and no more are allowed.
pub fn import_note_limit_warning(notes: usize) -> (r: Option<String>)
    ensures
        match r {
            Some(w) => notes >= MAX_IMPORTED_NOTES && w@ == "Stopped after 100000 notes to stay within the import limit."@,
            None => notes < MAX_IMPORTED_NOTES,
        },
{
    if notes >= MAX_IMPORTED_NOTES {
        Some(owned("Stopped after 100000 notes to stay within the import limit."))
    } else {
        None
    }
}

/// The next step for a note file while reading an import.
#[derive(Debug, Clone, PartialEq, Eq)]
pub enum ImportStep {
    /// Read the note.
    Proceed,
    /// Skip this file with a warning and go on.
    Skip(String),
    /// Stop reading notes with a warning.
    Stop(String),
}

/// The warning that ends an import whose notes reached the byte budget.
pub open spec fn spec_budget_warning() -> Seq<char> {
    "Stopped after reading 512 MiB of notes to stay within the import limit."@
}

/// Whether a note of `length` bytes (by its metadata) is read, after
/// `total_bytes` of notes were: a note over 10 MiB is skipped, and the
/// import stops before its notes pass 512 MiB in all.
pub fn import_note_size_step(total_bytes: u64, display: &str, length: u64) -> (r: ImportStep)
    ensures
        length > MAX_NOTE_BYTES ==> r == ImportStep::Skip(r->Skip_0) && r->Skip_0@ == "Skipped "@ + display@ + " because it is larger than 10 MiB."@,
        length <= MAX_NOTE_BYTES && total_bytes + length > MAX_TOTAL_IMPORT_BYTES ==> r == ImportStep::Stop(r->Stop_0) && r->Stop_0@ == spec_budget_warning(),
        length <= MAX_NOTE_BYTES && total_bytes + length <= MAX_TOTAL_IMPORT_BYTES ==> r == ImportStep::Proceed,
{
    if length > MAX_NOTE_BYTES {
        return ImportStep::Skip(concat3("Skipped ", &chars_of(display), " because it is larger than 10 MiB."));
    }
    if total_bytes > MAX_TOTAL_IMPORT_BYTES || length > MAX_TOTAL_IMPORT_BYTES - total_bytes {
        return ImportStep::Stop(owned("Stopped after reading 512 MiB of notes to stay within the import limit."));
    }
    ImportStep::Proceed
}

/// The byte count after a read note of `content_length` bytes is taken,
/// or the warning that stops the import when the budget would be passed.
pub fn import_note_content_step(total_bytes: u64, content_length: u64) -> (r: Result<u64, String>)
    ensures
        match r {
            Ok(t) => total_bytes + content_length <= MAX_TOTAL_IMPORT_BYTES && t == total_bytes + content_length,
            Err(w) => total_bytes + content_length > MAX_TOTAL_IMPORT_BYTES && w@ == spec_budget_warning(),
        },
{
    if total_bytes > MAX_TOTAL_IMPORT_BYTES || content_length > MAX_TOTAL_IMPORT_BYTES - total_bytes {
        return Err(owned("Stopped after reading 512 MiB of notes to stay within the import limit."));
    }
    Ok(total_bytes + content_length)
}

/// An image found in an imported vault, or the warning it is skipped with.
/// `length` is its size by its metadata (or why that could not be read),
/// `relative_path` its path below the vault written with `/` (`None` when
/// not valid Unicode), `display` how it is named in a warning and
/// `full_display` its full path.
pub open spec fn spec_inspect_portable_image(relative_path: Option<Seq<char>>, length: Result<u64, Seq<char>>, display: Seq<char>, full_display: Seq<char>) -> Result<Seq<char>, Seq<char>> {
    match length {
        Err(e) => Err("Skipped "@ + display + " because its metadata could not be read: "@ + e),
        Ok(n) => if n == 0 || n > MAX_IMAGE_BYTES {
            Err("Skipped "@ + display + " because images must be between 1 byte and 50 MiB."@)
        } else {
            match relative_path {
                None => Err("Skipped an image whose path is not valid Unicode: "@ + full_display),
                Some(p) => match spec_checked_relative_image_path(p) {
                    Err(reason) => Err("Skipped "@ + p + " because its image path is unsafe: "@ + reason),
                    Ok(_) => Ok(p),
                },
            }
        },
    }
}

pub open spec fn view_length(length: Result<u64, String>) -> Result<u64, Seq<char>> {
    match length {
        Ok(n) => Ok(n),
        Err(e) => Err(e@),
    }
}

pub open spec fn view_opt_str(o: Option<&str>) -> Option<Seq<char>> {
    match o {
        Some(s) => Some(s@),
        None => None,
    }
}

fn concat4(a: &str, b: &[char], c: &str, d: &[char]) -> (r: String)
    ensures
        r@ == a@ + b@ + c@ + d@,
{
    let mut v = chars_of(a);
    crate::text::extend_chars(&mut v, b);
    crate::text::extend_chars(&mut v, &chars_of(c));
    crate::text::extend_chars(&mut v, d);
    string_of(&v)
}

/// An image found in an imported vault, or the warning it is skipped with.
pub fn inspect_portable_image(relative_path: Option<&str>, length: &Result<u64, String>, display: &str, full_display: &str) -> (r: Result<ImportedImage, String>)
    ensures
        match r {
            Ok(i) => spec_inspect_portable_image(view_opt_str(relative_path), view_length(*length), display@, full_display@) == Ok::<Seq<char>, Seq<char>>(i.relative_path@),
            Err(w) => spec_inspect_portable_image(view_opt_str(relative_path), view_length(*length), display@, full_display@) == Err::<Seq<char>, Seq<char>>(w@),
        },
{
    match length {
        Err(e) => return Err(concat4("Skipped ", &chars_of(display), " because its metadata could not be read: ", &chars_of(e.as_str()))),
        Ok(n) => if *n == 0 || *n > MAX_IMAGE_BYTES {
            return Err(concat3("Skipped ", &chars_of(display), " because images must be between 1 byte and 50 MiB."));
        },
    }
    let p = match relative_path {
        None => return Err(crate::text::concat2("Skipped an image whose path is not valid Unicode: ", &chars_of(full_display))),
        Some(p) => p,
    };
    match checked_relative_image_path(p) {
        Err(reason) => Err(concat4("Skipped ", &chars_of(p), " because its image path is unsafe: ", &chars_of(reason.as_str()))),
        Ok(_) => Ok(ImportedImage { relative_path: owned(p) }),
    }
}

/// A non-image file found in an imported vault, or the warning it is skipped with.
pub open spec fn spec_inspect_portable_attachment(relative_path: Option<Seq<char>>, length: Result<u64, Seq<char>>, display: Seq<char>, full_display: Seq<char>) -> Result<Seq<char>, Seq<char>> {
    match length {
        Err(e) => Err("Skipped "@ + display + " because its metadata could not be read: "@ + e),
        Ok(n) => if n > MAX_ATTACHMENT_BYTES {
            Err("Skipped "@ + display + " because attachments must be no larger than 4 GiB."@)
        } else {
            match relative_path {
                None => Err("Skipped an attachment whose path is not valid Unicode: "@ + full_display),
                Some(p) => match spec_checked_relative_attachment_path(p) {
                    Err(reason) => Err("Skipped "@ + p + " because its attachment path is unsafe: "@ + reason),
                    Ok(_) => Ok(p),
                },
            }
        },
    }
}

/// A non-image file found in an imported vault, or the warning it is skipped with.
pub fn inspect_portable_attachment(relative_path: Option<&str>, length: &Result<u64, String>, display: &str, full_display: &str) -> (r: Result<ImportedAttachment, String>)
    ensures
        match r {
            Ok(a) => spec_inspect_portable_attachment(view_opt_str(relative_path), view_length(*length), display@, full_display@) == Ok::<Seq<char>, Seq<char>>(a.relative_path@),
            Err(w) => spec_inspect_portable_attachment(view_opt_str(relative_path), view_length(*length), display@, full_display@) == Err::<Seq<char>, Seq<char>>(w@),
        },
{
    match length {
        Err(e) => return Err(concat4("Skipped ", &chars_of(display), " because its metadata could not be read: ", &chars_of(e.as_str()))),
        Ok(n) => if *n > MAX_ATTACHMENT_BYTES {
            return Err(concat3("Skipped ", &chars_of(display), " because attachments must be no larger than 4 GiB."));
        },
    }
    let p = match relative_path {
        None => return Err(crate::text::concat2("Skipped an attachment whose path is not valid Unicode: ", &chars_of(full_display))),
        Some(p) => p,
    };
    match checked_relative_attachment_path(p) {
        Err(reason) => Err(concat4("Skipped ", &chars_of(p), " because its attachment path is unsafe: ", &chars_of(reason.as_str()))),
        Ok(_) => Ok(ImportedAttachment { relative_path: owned(p) }),
    }
}

/// The title an imported note is listed under: its frontmatter title unless
/// blank, else its file stem unless blank, else `Untitled`.
pub open spec fn spec_imported_title(relative_path: Seq<char>, content: Seq<char>) -> Seq<char> {
    let fallback = match spec_file_stem(relative_path) {
        Some(s) => if spec_trim(s).len() > 0 { s } else { "Untitled"@ },
        None => "Untitled"@,
    };
    match spec_parse_basic_frontmatter(content).0 {
        Some(t) => if spec_trim(t).len() > 0 { t } else { fallback },
        None => fallback,
    }
}

/// The record of a note read for import: its content unchanged, its title,
/// its folder (the path's parent, empty at the top) and its frontmatter tags.
pub fn imported_note(relative_path: String, content: String) -> (r: ImportedNote)
    ensures
        r.relative_path@ == relative_path@,
        r.content@ == content@,
        r.folder_path@ == spec_parent(relative_path@),
        r.title@ == spec_imported_title(relative_path@, content@),
        strings_view(r.tags@) == spec_parse_basic_frontmatter(content@).1,
{
    let frontmatter = parse_basic_frontmatter(content.as_str());
    let path = chars_of(relative_path.as_str());
    let fallback = match file_stem(&path) {
        Some(s) => if trim(&s).len() > 0 {
            string_of(&s)
        } else {
            owned("Untitled")
        },
        None => owned("Untitled"),
    };
    let title = match frontmatter.title {
        Some(t) => if trim(&chars_of(t.as_str())).len() > 0 {
            t
        } else {
            fallback
        },
        None => fallback,
    };
    let folder_path = string_of(&parent(&path));
    ImportedNote { title, content, folder_path, relative_path, tags: frontmatter.tags }
}

// ---------------------------------------------------------------------------
// CSS snippets
// ---------------------------------------------------------------------------

/// What is done with an entry of `.obsidian/snippets`.
#[derive(Debug, Clone, PartialEq, Eq)]
pub enum SnippetStep {
    /// Not a snippet: left alone without a word.
    Ignore,
    /// Skipped with a warning.
    Skip(String),
    /// Read as the snippet with this name.
    Read(String),
}

/// Whether a snippet entry's name ends in `.css`, in any letter case.
pub open spec fn spec_is_css_name(name: Seq<char>) -> bool {
    match spec_extension(name) {
        Some(e) => spec_eq_ignore_ascii_case(e, "css"@),
        None => false,
    }
}

/// The name a snippet is read under: its file stem, when the entry's name
/// is valid Unicode and the stem is not empty.
pub open spec fn spec_snippet_name(file_name: Option<Seq<char>>) -> Option<Seq<char>> {
    match file_name {
        Some(n) => match spec_file_stem(n) {
            Some(s) => if s.len() > 0 { Some(s) } else { None },
            None => None,
        },
        None => None,
    }
}

/// What is done with an entry of `.obsidian/snippets`: regular `.css` files
/// of at most 5 MiB with a file stem are read under that stem, larger ones
/// and nameless ones are skipped with a warning, anything else is ignored.
/// `file_name` is the entry's name (`None` when it is not valid Unicode),
/// `lossy_name` the name with invalid parts replaced, and `display` its
/// full path.
pub fn inspect_snippet_entry(file_name: Option<&str>, lossy_name: &str, is_regular_file: bool, length: u64, display: &str) -> (r: SnippetStep)
    ensures
        ({
            let shown = match file_name {
                Some(n) => n@,
                None => lossy_name@,
            };
            if !is_regular_file || !spec_is_css_name(shown) {
                r == SnippetStep::Ignore
            } else if length > MAX_SNIPPET_BYTES {
                r is Skip && r->Skip_0@ == "Skipped CSS snippet "@ + lossy_name@ + " because it is larger than 5 MiB."@
            } else {
                match spec_snippet_name(view_opt_str(file_name)) {
                    Some(name) => r is Read && r->Read_0@ == name,
                    None => r is Skip && r->Skip_0@ == "Skipped a CSS snippet with an invalid name: "@ + display@,
                }
            }
        }),
{
    let shown = match file_name {
        Some(n) => chars_of(n),
        None => chars_of(lossy_name),
    };
    let is_css = match extension(&shown) {
        Some(e) => eq_ignore_ascii_case(&e, &chars_of("css")),
        None => false,
    };
    if !is_regular_file || !is_css {
        return SnippetStep::Ignore;
    }
    if length > MAX_SNIPPET_BYTES {
        return SnippetStep::Skip(concat3("Skipped CSS snippet ", &chars_of(lossy_name), " because it is larger than 5 MiB."));
    }
    let stem = match file_name {
        Some(n) => file_stem(&chars_of(n)),
        None => None,
    };
    match stem {
        Some(s) => if s.len() > 0 {
            SnippetStep::Read(string_of(&s))
        } else {
            SnippetStep::Skip(crate::text::concat2("Skipped a CSS snippet with an invalid name: ", &chars_of(display)))
        },
        None => SnippetStep::Skip(crate::text::concat2("Skipped a CSS snippet with an invalid name: ", &chars_of(display))),
    }
}

/// A CSS snippet read for import; it is enabled when the vault's appearance
/// settings list its name or its file name.
pub fn vault_snippet(name: String, css: String, file_name: &str, enabled_names: &[String]) -> (r: VaultSnippet)
    ensures
        r.name@ == name@,
        r.css@ == css@,
        r.enabled == (strings_view(enabled_names@).contains(name@) || strings_view(enabled_names@).contains(file_name@)),
{
    let enabled = crate::rules::contains_string(enabled_names, name.as_str()) || crate::rules::contains_string(enabled_names, file_name);
    VaultSnippet { name, css, enabled }
}


/// Why `.obsidian/appearance.json` is skipped, given whether it is a regular
/// file (not a link) and its length; `None` when it is read.
pub fn appearance_file_warning(is_regular: bool, length: u64) -> (r: Option<String>)
    ensures
        match r {
            Some(w) => if !is_regular {
                w@ == "Skipped .obsidian/appearance.json because it is not a regular file."@
            } else {
                length > MAX_APPEARANCE_BYTES
                    && w@ == "Skipped .obsidian/appearance.json because it is unexpectedly large."@
            },
            None => is_regular && length <= MAX_APPEARANCE_BYTES,
        },
{
    if !is_regular {
        Some(owned("Skipped .obsidian/appearance.json because it is not a regular file."))
    } else if length > MAX_APPEARANCE_BYTES {
        Some(owned("Skipped .obsidian/appearance.json because it is unexpectedly large."))
    } else {
        None
    }
}


/// A JSON document as the import reads it; numbers are kept only as such.
#[derive(Debug)]
pub enum JsonValue {
    Null,
    Bool(bool),
    Number,
    Str(String),
    Array(Vec<JsonValue>),
    Object(Vec<(String, JsonValue)>),
}

/// The entry named `key` among an object's entries, if there is one.
pub open spec fn spec_json_entry(entries: Seq<(String, JsonValue)>, key: Seq<char>) -> Option<JsonValue>
    decreases entries.len(),
{
    if entries.len() == 0 {
        None
    } else if entries[0].0@ == key {
        Some(entries[0].1)
    } else {
        spec_json_entry(entries.skip(1), key)
    }
}

/// The strings among a list's items, in order; other items are passed over.
pub open spec fn spec_json_strings(items: Seq<JsonValue>) -> Seq<Seq<char>>
    decreases items.len(),
{
    if items.len() == 0 {
        Seq::empty()
    } else {
        let rest = spec_json_strings(items.drop_last());
        match items.last() {
            JsonValue::Str(s) => rest.push(s@),
            _ => rest,
        }
    }
}

/// The snippet names an Obsidian `appearance.json` enables: the strings in
/// its `enabledCssSnippets` list; none when the document is not an object
/// or that entry is missing or not a list.
pub open spec fn spec_enabled_snippet_names(doc: JsonValue) -> Seq<Seq<char>> {
    match doc {
        JsonValue::Object(entries) => match spec_json_entry(entries@, "enabledCssSnippets"@) {
            Some(JsonValue::Array(items)) => spec_json_strings(items@),
            _ => Seq::empty(),
        },
        _ => Seq::empty(),
    }
}

/// The snippet names an Obsidian `appearance.json` enables.
pub fn enabled_snippet_names(doc: &JsonValue) -> (r: Vec<String>)
    ensures
        crate::frontmatter::strings_view(r@) == spec_enabled_snippet_names(*doc),
{
    let entries = match doc {
        JsonValue::Object(entries) => entries,
        _ => return Vec::new(),
    };
    let key = chars_of("enabledCssSnippets");
    let mut i: usize = 0;
    assert(entries@.skip(0) =~= entries@);
    while i < entries.len()
        invariant
            i <= entries.len(),
            key@ == "enabledCssSnippets"@,
            spec_json_entry(entries@, "enabledCssSnippets"@) == spec_json_entry(entries@.skip(i as int), "enabledCssSnippets"@),
        decreases entries.len() - i,
    {
        assert(entries@.skip(i as int)[0] == entries@[i as int]);
        assert(entries@.skip(i as int).skip(1) =~= entries@.skip(i as int + 1));
        if chars_eq(&chars_of(entries[i].0.as_str()), &key) {
            let items = match &entries[i].1 {
                JsonValue::Array(items) => items,
                _ => return Vec::new(),
            };
            let mut names: Vec<String> = Vec::new();
            let mut j: usize = 0;
            while j < items.len()
                invariant
                    j <= items.len(),
                    crate::frontmatter::strings_view(names@) == spec_json_strings(items@.take(j as int)),
                decreases items.len() - j,
            {
                assert(items@.take(j as int + 1).drop_last() =~= items@.take(j as int));
                assert(items@.take(j as int + 1).last() == items@[j as int]);
                let ghost before = crate::frontmatter::strings_view(names@);
                match &items[j] {
                    JsonValue::Str(s) => {
                        names.push(owned(s.as_str()));
                        assert(crate::frontmatter::strings_view(names@) =~= before.push(s@));
                    },
                    _ => {},
                }
                j = j + 1;
            }
            assert(items@.take(items.len() as int) =~= items@);
            return names;
        }
        i = i + 1;
    }
    assert(entries@.skip(entries.len() as int) =~= Seq::<(String, JsonValue)>::empty());
    Vec::new()
}

} // verus!
