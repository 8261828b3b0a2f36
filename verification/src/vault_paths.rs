//! Paths and names of a portable vault that is imported or exported.
#![verifier::loop_isolation(false)]

use crate::media::{
    is_canvas_path_chars, is_markdown_path_chars, is_supported_image_path_chars,
    spec_is_canvas_path, spec_is_markdown_path, spec_is_supported_image_path,
};
use crate::names::{
    any_forbidden, is_windows_reserved_name_chars, spec_any_forbidden,
    spec_is_windows_reserved_name,
};
use crate::paths::{file_name, is_dot, is_dot_dot, parent, spec_file_name, spec_parent};
use crate::text::{
    any_control, chars_eq, chars_of, contains_char, deep_chars, eq_ignore_ascii_case,
    extend_chars, owned, spec_any_control, spec_contains_char, spec_eq_ignore_ascii_case,
    spec_split, spec_trim, spec_utf8_len, split, string_of, trim, utf8_len_exceeds,
};
use vstd::prelude::*;

verus! {

pub open spec fn spec_is_ascii_alphabetic(c: char) -> bool {
    ('a' <= c && c <= 'z') || ('A' <= c && c <= 'Z')
}

/// Why one piece of an exported note's folder is refused.
pub open spec fn spec_folder_piece_error(seg: Seq<char>) -> Option<Seq<char>> {
    if seg.len() == 0 || is_dot(seg) || is_dot_dot(seg) {
        Some("empty, current-directory, and parent-directory segments are not allowed"@)
    } else if spec_eq_ignore_ascii_case(seg, ".obsidian"@) || spec_eq_ignore_ascii_case(
        seg,
        ".trash"@,
    ) || spec_eq_ignore_ascii_case(seg, ".obsidian-at-home"@) {
        Some("App settings, Obsidian settings, and trash folders are reserved"@)
    } else if spec_utf8_len(seg) > 255 || spec_any_control(seg) {
        Some("a folder name is too long or contains control characters"@)
    } else {
        None
    }
}

pub open spec fn spec_folder_pieces_error(pieces: Seq<Seq<char>>, i: int) -> Option<Seq<char>>
    decreases pieces.len() - i,
{
    if i < 0 || i >= pieces.len() {
        None
    } else {
        match spec_folder_piece_error(pieces[i]) {
            Some(e) => Some(e),
            None => spec_folder_pieces_error(pieces, i + 1),
        }
    }
}

/// The folder of a portable vault that `folder` names, or why it is refused.
pub open spec fn spec_checked_relative_folder(folder: Seq<char>) -> Result<Seq<char>, Seq<char>> {
    if folder.len() == 0 {
        Ok(Seq::empty())
    } else if folder[0] == '/' || folder[0] == '\\' || spec_contains_char(folder, '\\') {
        Err("absolute paths and backslashes are not allowed"@)
    } else if folder.len() >= 2 && spec_is_ascii_alphabetic(folder[0]) && folder[1] == ':' {
        Err("drive-qualified paths are not allowed"@)
    } else {
        match spec_folder_pieces_error(spec_split(folder, '/'), 0) {
            Some(e) => Err(e),
            None => Ok(folder),
        }
    }
}

pub open spec fn view_string_result(r: Result<String, String>) -> Result<Seq<char>, Seq<char>> {
    match r {
        Ok(s) => Ok(s@),
        Err(e) => Err(e@),
    }
}

fn folder_piece_error(seg: &[char]) -> (r: Option<String>)
    ensures
        match r {
            Some(e) => spec_folder_piece_error(seg@) == Some(e@),
            None => spec_folder_piece_error(seg@) is None,
        },
{
    if seg.len() == 0 || (seg.len() == 1 && seg[0] == '.') || (seg.len() == 2 && seg[0] == '.'
        && seg[1] == '.') {
        return Some(
            owned("empty, current-directory, and parent-directory segments are not allowed"),
        );
    }
    if eq_ignore_ascii_case(seg, &chars_of(".obsidian")) || eq_ignore_ascii_case(
        seg,
        &chars_of(".trash"),
    ) || eq_ignore_ascii_case(seg, &chars_of(".obsidian-at-home")) {
        return Some(owned("App settings, Obsidian settings, and trash folders are reserved"));
    }
    if utf8_len_exceeds(seg, 255) || any_control(seg) {
        return Some(owned("a folder name is too long or contains control characters"));
    }
    None
}

pub fn checked_relative_folder_chars(folder: &[char]) -> (r: Result<String, String>)
    ensures
        view_string_result(r) == spec_checked_relative_folder(folder@),
{
    if folder.len() == 0 {
        return Ok(String::new());
    }
    if folder[0] == '/' || folder[0] == '\\' || contains_char(folder, '\\') {
        return Err(owned("absolute paths and backslashes are not allowed"));
    }
    if folder.len() >= 2 && (('a' <= folder[0] && folder[0] <= 'z') || ('A' <= folder[0]
        && folder[0] <= 'Z')) && folder[1] == ':' {
        return Err(owned("drive-qualified paths are not allowed"));
    }
    let pieces = split(folder, '/');
    let ghost d = deep_chars(pieces@);
    let mut i: usize = 0;
    while i < pieces.len()
        invariant
            i <= pieces.len(),
            d == deep_chars(pieces@),
            spec_folder_pieces_error(d, 0) == spec_folder_pieces_error(d, i as int),
        decreases pieces.len() - i,
    {
        let p = &pieces[i];
        assert(p@ == d[i as int]);
        match folder_piece_error(p) {
            Some(e) => return Err(e),
            None => {},
        }
        i = i + 1;
    }
    Ok(string_of(folder))
}

/// The folder of a portable vault that `folder` names: a relative path of
/// ordinary folder names, outside Obsidian's and the app's settings and the trash.
pub fn checked_relative_folder(folder: &str) -> (r: Result<String, String>)
    ensures
        view_string_result(r) == spec_checked_relative_folder(folder@),
{
    checked_relative_folder_chars(&chars_of(folder))
}

/// Whether a file name is portable: at most 255 bytes, not ending in `.` or a
/// space, without unsafe characters, and not a Windows device name.
pub open spec fn spec_portable_file_name(name: Seq<char>) -> bool {
    !(spec_utf8_len(name) > 255 || name.last() == '.' || name.last() == ' ' || spec_any_forbidden(
        name,
    ) || spec_is_windows_reserved_name(name))
}

/// The folder joined with the file name, or the file name alone at the root.
pub open spec fn spec_join_file(folder: Seq<char>, name: Seq<char>) -> Seq<char> {
    if folder.len() == 0 {
        name
    } else {
        folder + seq!['/'] + name
    }
}

pub open spec fn spec_checked_file_in_folder(path: Seq<char>, invalid: Seq<char>, not_portable: Seq<char>) -> Result<Seq<char>, Seq<char>> {
    match spec_file_name(path) {
        None => Err(invalid),
        Some(name) => if !spec_portable_file_name(name) {
            Err(not_portable)
        } else {
            match spec_checked_relative_folder(spec_parent(path)) {
                Err(e) => Err(e),
                Ok(folder) => Ok(spec_join_file(folder, name)),
            }
        },
    }
}

/// The image path of a portable vault that `path` names, or why it is refused.
pub open spec fn spec_checked_relative_image_path(path: Seq<char>) -> Result<Seq<char>, Seq<char>> {
    if path.len() == 0 || path[0] == '/' || path[0] == '\\' || spec_contains_char(path, '\\') {
        Err("absolute paths and backslashes are not allowed"@)
    } else if !spec_is_supported_image_path(path) {
        Err("the file extension is not a supported image type"@)
    } else {
        spec_checked_file_in_folder(
            path,
            "the image file name is invalid"@,
            "the image file name is not portable"@,
        )
    }
}

/// The attachment path of a portable vault that `path` names, or why it is refused.
pub open spec fn spec_checked_relative_attachment_path(path: Seq<char>) -> Result<
    Seq<char>,
    Seq<char>,
> {
    if path.len() == 0 || path[0] == '/' || path[0] == '\\' || spec_contains_char(path, '\\') {
        Err("absolute paths and backslashes are not allowed"@)
    } else if spec_is_markdown_path(path) {
        Err("Markdown files are notes, not attachments"@)
    } else if spec_is_canvas_path(path) {
        Err("Canvas files are not attachments"@)
    } else if spec_is_supported_image_path(path) {
        Err("supported image files must be transferred as images"@)
    } else {
        spec_checked_file_in_folder(
            path,
            "the attachment file name is invalid"@,
            "the attachment file name is not portable"@,
        )
    }
}

fn checked_file_in_folder(path: &[char], invalid: &str, not_portable: &str) -> (r: Result<
    String,
    String,
>)
    ensures
        view_string_result(r) == spec_checked_file_in_folder(path@, invalid@, not_portable@),
{
    let name = match file_name(path) {
        None => return Err(owned(invalid)),
        Some(n) => n,
    };
    assert(name.len() > 0) by {
        crate::paths::lemma_file_name_nonempty(path@);
    }
    if utf8_len_exceeds(&name, 255) || name[name.len() - 1] == '.' || name[name.len() - 1] == ' '
        || any_forbidden(&name) || is_windows_reserved_name_chars(&name) {
        return Err(owned(not_portable));
    }
    let folder_path = parent(path);
    match checked_relative_folder_chars(&folder_path) {
        Err(e) => Err(e),
        Ok(folder) => {
            let mut v = chars_of(folder.as_str());
            let ghost f = v@;
            if v.len() > 0 {
                v.push('/');
                assert(v@ == f + seq!['/']);
            }
            extend_chars(&mut v, &name);
            assert(v@ == spec_join_file(f, name@));
            Ok(string_of(&v))
        },
    }
}

/// The image path of a portable vault that `path` names: an image file name
/// that is portable, in a folder that `checked_relative_folder` accepts.
pub fn checked_relative_image_path(path: &str) -> (r: Result<String, String>)
    ensures
        view_string_result(r) == spec_checked_relative_image_path(path@),
{
    let p = chars_of(path);
    if p.len() == 0 || p[0] == '/' || p[0] == '\\' || contains_char(&p, '\\') {
        return Err(owned("absolute paths and backslashes are not allowed"));
    }
    if !is_supported_image_path_chars(&p) {
        return Err(owned("the file extension is not a supported image type"));
    }
    checked_file_in_folder(
        &p,
        "the image file name is invalid",
        "the image file name is not portable",
    )
}

/// The attachment path of a portable vault that `path` names: neither a note,
/// a canvas nor an image, with a portable file name in an accepted folder.
pub fn checked_relative_attachment_path(path: &str) -> (r: Result<String, String>)
    ensures
        view_string_result(r) == spec_checked_relative_attachment_path(path@),
{
    let p = chars_of(path);
    if p.len() == 0 || p[0] == '/' || p[0] == '\\' || contains_char(&p, '\\') {
        return Err(owned("absolute paths and backslashes are not allowed"));
    }
    if is_markdown_path_chars(&p) {
        return Err(owned("Markdown files are notes, not attachments"));
    }
    if is_canvas_path_chars(&p) {
        return Err(owned("Canvas files are not attachments"));
    }
    if is_supported_image_path_chars(&p) {
        return Err(owned("supported image files must be transferred as images"));
    }
    checked_file_in_folder(
        &p,
        "the attachment file name is invalid",
        "the attachment file name is not portable",
    )
}

/// Why the name of an exported vault folder is refused.
pub open spec fn spec_vault_name_error(name: Seq<char>) -> Option<Seq<char>> {
    let n = spec_trim(name);
    if n.len() == 0 {
        Some("Enter a name for the exported vault."@)
    } else if spec_utf8_len(n) > 180 {
        Some("The exported vault name is too long."@)
    } else if n == "."@ || n == ".."@ {
        Some("The exported vault name is not valid."@)
    } else if n.last() == '.' || spec_any_forbidden(n) {
        Some("The exported vault name contains characters that are not safe in a folder name."@)
    } else if spec_is_windows_reserved_name(n) {
        Some("The exported vault name is reserved by the operating system."@)
    } else {
        None
    }
}

/// Checks the name of the folder that an export creates.
pub fn validate_vault_name(name: &str) -> (r: Result<(), String>)
    ensures
        match r {
            Ok(()) => spec_vault_name_error(name@) is None,
            Err(e) => spec_vault_name_error(name@) == Some(e@),
        },
{
    let n = trim(&chars_of(name));
    if n.len() == 0 {
        return Err(owned("Enter a name for the exported vault."));
    }
    if utf8_len_exceeds(&n, 180) {
        return Err(owned("The exported vault name is too long."));
    }
    if chars_eq(&n, &chars_of(".")) || chars_eq(&n, &chars_of("..")) {
        return Err(owned("The exported vault name is not valid."));
    }
    if n[n.len() - 1] == '.' || any_forbidden(&n) {
        return Err(
            owned("The exported vault name contains characters that are not safe in a folder name."),
        );
    }
    if is_windows_reserved_name_chars(&n) {
        return Err(owned("The exported vault name is reserved by the operating system."));
    }
    Ok(())
}

} // verus!
