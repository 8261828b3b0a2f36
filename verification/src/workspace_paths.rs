//! Vault-relative paths of notes, folders and assets inside an open vault.
#![verifier::loop_isolation(false)]

use crate::media::{
    image_media_type_for_extension_chars, is_markdown_path_chars,
    is_supported_image_path_chars, spec_image_media_type, spec_is_markdown_path,
    spec_is_supported_image_path,
};
use crate::names::{
    is_reserved_workspace_directory_chars, spec_component_name_error,
    spec_is_reserved_workspace_directory, validate_component_name_chars,
};
use crate::paths::{extension, is_dot, is_dot_dot, parent, spec_extension, spec_parent};
use crate::text::{
    any_control, chars_of, contains_char, deep_chars, join, owned, spec_any_control,
    spec_contains_char, spec_join, spec_split, spec_trim_start_in, spec_utf8_len, split,
    trim_start_in, utf8_len_exceeds,
};
use vstd::prelude::*;

verus! {

/// The most folders a vault-relative path may nest.
pub const MAX_PATH_COMPONENTS: usize = 120;

/// Why one `/`-separated piece of a vault-relative path is refused;
/// `check_name` asks for the folder-name rules as well.
pub open spec fn spec_piece_error(seg: Seq<char>, check_name: bool) -> Option<Seq<char>> {
    if seg.len() == 0 || is_dot(seg) || is_dot_dot(seg) {
        Some("Empty, current-directory, and parent-directory segments are not allowed."@)
    } else if spec_is_reserved_workspace_directory(seg) {
        Some("App settings, Obsidian settings, trash, and Git folders are reserved."@)
    } else if spec_utf8_len(seg) > 255 || spec_any_control(seg) {
        Some("A path segment is too long or contains control characters."@)
    } else if check_name {
        spec_component_name_error(seg, "folder"@)
    } else {
        None
    }
}

/// The first refused piece at index `i` or later. Every piece but a note's
/// file name must also be a valid folder name.
pub open spec fn spec_pieces_error(pieces: Seq<Seq<char>>, file: bool, i: int) -> Option<
    Seq<char>,
>
    decreases pieces.len() - i,
{
    if i < 0 || i >= pieces.len() {
        None
    } else {
        match spec_piece_error(pieces[i], !file || i + 1 < pieces.len()) {
            Some(e) => Some(e),
            None => spec_pieces_error(pieces, file, i + 1),
        }
    }
}

pub open spec fn spec_has_parent_piece(pieces: Seq<Seq<char>>) -> bool {
    exists|i: int| 0 <= i < pieces.len() && is_dot_dot(#[trigger] pieces[i])
}

/// Why a vault-relative path is refused, or `None`; `file` asks for a note path.
pub open spec fn spec_relative_path_error(path: Seq<char>, file: bool) -> Option<Seq<char>> {
    let pieces = spec_split(path, '/');
    if path.len() == 0 || path[0] == '/' || path[0] == '\\' || spec_contains_char(path, '\\') {
        Some("Paths must be relative to the vault and use forward slashes."@)
    } else if spec_has_parent_piece(pieces) {
        Some("Parent, root, and drive-qualified paths are not allowed."@)
    } else if pieces.len() > MAX_PATH_COMPONENTS {
        Some("The path contains too many nested folders."@)
    } else {
        match spec_pieces_error(pieces, file, 0) {
            Some(e) => Some(e),
            None => if file && !spec_is_markdown_path(path) {
                Some("Note paths must end in .md or .markdown."@)
            } else {
                None
            },
        }
    }
}

pub open spec fn as_result(e: Option<Seq<char>>) -> Result<(), Seq<char>> {
    match e {
        Some(m) => Err(m),
        None => Ok(()),
    }
}

pub open spec fn view_result(r: Result<(), String>) -> Result<(), Seq<char>> {
    match r {
        Ok(()) => Ok(()),
        Err(e) => Err(e@),
    }
}

fn piece_error(seg: &[char], check_name: bool) -> (r: Result<(), String>)
    ensures
        view_result(r) == as_result(spec_piece_error(seg@, check_name)),
{
    if seg.len() == 0 || (seg.len() == 1 && seg[0] == '.') || (seg.len() == 2 && seg[0] == '.'
        && seg[1] == '.') {
        return Err(
            owned("Empty, current-directory, and parent-directory segments are not allowed."),
        );
    }
    if is_reserved_workspace_directory_chars(seg) {
        return Err(owned("App settings, Obsidian settings, trash, and Git folders are reserved."));
    }
    if utf8_len_exceeds(seg, 255) || any_control(seg) {
        return Err(owned("A path segment is too long or contains control characters."));
    }
    if check_name {
        return validate_component_name_chars(seg, &chars_of("folder"));
    }
    Ok(())
}

pub fn validate_relative_path_chars(path: &[char], file: bool) -> (r: Result<(), String>)
    ensures
        view_result(r) == as_result(spec_relative_path_error(path@, file)),
{
    if path.len() == 0 || path[0] == '/' || path[0] == '\\' || contains_char(path, '\\') {
        return Err(owned("Paths must be relative to the vault and use forward slashes."));
    }
    let pieces = split(path, '/');
    let ghost d = deep_chars(pieces@);
    let mut i: usize = 0;
    while i < pieces.len()
        invariant
            i <= pieces.len(),
            d == deep_chars(pieces@),
            forall|j: int| 0 <= j < i ==> !is_dot_dot(#[trigger] d[j]),
        decreases pieces.len() - i,
    {
        let p = &pieces[i];
        assert(p@ == d[i as int]);
        if p.len() == 2 && p[0] == '.' && p[1] == '.' {
            return Err(owned("Parent, root, and drive-qualified paths are not allowed."));
        }
        i = i + 1;
    }
    if pieces.len() > MAX_PATH_COMPONENTS {
        return Err(owned("The path contains too many nested folders."));
    }
    let mut i: usize = 0;
    while i < pieces.len()
        invariant
            i <= pieces.len(),
            d == deep_chars(pieces@),
            spec_pieces_error(d, file, 0) == spec_pieces_error(d, file, i as int),
        decreases pieces.len() - i,
    {
        let p = &pieces[i];
        assert(p@ == d[i as int]);
        let checked = piece_error(p, !file || i + 1 < pieces.len());
        if checked.is_err() {
            return checked;
        }
        i = i + 1;
    }
    if file && !is_markdown_path_chars(path) {
        return Err(owned("Note paths must end in .md or .markdown."));
    }
    Ok(())
}

/// Checks a `/`-separated path inside the vault; `file` asks for a note path.
pub fn validate_relative_path(relative_path: &str, file: bool) -> (r: Result<(), String>)
    ensures
        view_result(r) == as_result(spec_relative_path_error(relative_path@, file)),
{
    validate_relative_path_chars(&chars_of(relative_path), file)
}

/// Checks the vault-relative path of a note.
pub fn validate_markdown_relative_path(path: &str) -> (r: Result<(), String>)
    ensures
        view_result(r) == as_result(spec_relative_path_error(path@, true)),
{
    validate_relative_path(path, true)
}

/// The checked path, unchanged, when it is a valid vault-relative path.
pub fn checked_relative_path(relative_path: &str, file: bool) -> (r: Result<String, String>)
    ensures
        match r {
            Ok(p) => spec_relative_path_error(relative_path@, file) is None && p@
                == relative_path@,
            Err(e) => spec_relative_path_error(relative_path@, file) == Some(e@),
        },
{
    match validate_relative_path(relative_path, file) {
        Ok(()) => Ok(owned(relative_path)),
        Err(e) => Err(e),
    }
}

/// Why a path is refused as the vault-relative path of an image.
pub open spec fn spec_image_relative_path_error(path: Seq<char>) -> Option<Seq<char>> {
    match spec_relative_path_error(path, false) {
        Some(e) => Some(e),
        None => match spec_extension(path) {
            None => Some("Embedded image paths must include a supported extension."@),
            Some(e) => if spec_image_media_type(e) is None {
                Some("Use a PNG, JPEG, GIF, WebP, BMP, or AVIF image path."@)
            } else {
                None
            },
        },
    }
}

pub fn validate_image_relative_path_chars(relative_path: &[char]) -> (r: Result<(), String>)
    ensures
        view_result(r) == as_result(spec_image_relative_path_error(relative_path@)),
{
    let checked = validate_relative_path_chars(relative_path, false);
    if checked.is_err() {
        return checked;
    }
    match extension(relative_path) {
        None => Err(owned("Embedded image paths must include a supported extension.")),
        Some(e) => {
            if image_media_type_for_extension_chars(&e).is_none() {
                Err(owned("Use a PNG, JPEG, GIF, WebP, BMP, or AVIF image path."))
            } else {
                Ok(())
            }
        },
    }
}

/// Checks the vault-relative path of an embedded image.
pub fn validate_image_relative_path(relative_path: &str) -> (r: Result<(), String>)
    ensures
        view_result(r) == as_result(spec_image_relative_path_error(relative_path@)),
{
    validate_image_relative_path_chars(&chars_of(relative_path))
}

/// Why a path is refused as the vault-relative path of an attachment.
pub open spec fn spec_attachment_relative_path_error(path: Seq<char>) -> Option<Seq<char>> {
    match spec_relative_path_error(path, false) {
        Some(e) => Some(e),
        None => if spec_is_markdown_path(path) {
            Some("Markdown notes should be linked as notes, not embedded as attachments."@)
        } else if spec_is_supported_image_path(path) {
            Some("Use image embedding for PNG, JPEG, GIF, WebP, BMP, and AVIF files."@)
        } else {
            None
        },
    }
}

pub fn validate_attachment_relative_path_chars(relative_path: &[char]) -> (r: Result<(), String>)
    ensures
        view_result(r) == as_result(spec_attachment_relative_path_error(relative_path@)),
{
    let checked = validate_relative_path_chars(relative_path, false);
    if checked.is_err() {
        return checked;
    }
    if is_markdown_path_chars(relative_path) {
        return Err(
            owned("Markdown notes should be linked as notes, not embedded as attachments."),
        );
    }
    if is_supported_image_path_chars(relative_path) {
        return Err(owned("Use image embedding for PNG, JPEG, GIF, WebP, BMP, and AVIF files."));
    }
    Ok(())
}

/// Checks the vault-relative path of an embedded attachment.
pub fn validate_attachment_relative_path(relative_path: &str) -> (r: Result<(), String>)
    ensures
        view_result(r) == as_result(spec_attachment_relative_path_error(relative_path@)),
{
    validate_attachment_relative_path_chars(&chars_of(relative_path))
}

} // verus!

verus! {

/// The pieces that are not empty, in order.
pub open spec fn spec_nonempty_pieces(pieces: Seq<Seq<char>>) -> Seq<Seq<char>>
    decreases pieces.len(),
{
    if pieces.len() == 0 {
        Seq::empty()
    } else if pieces.last().len() > 0 {
        spec_nonempty_pieces(pieces.drop_last()).push(pieces.last())
    } else {
        spec_nonempty_pieces(pieces.drop_last())
    }
}

/// Walks `pieces` from index `i` on a stack of folders: empty pieces and `.`
/// stay in place, `..` goes up (and fails above the vault), anything else goes down.
pub open spec fn spec_walk(stack: Seq<Seq<char>>, pieces: Seq<Seq<char>>, i: int) -> Option<
    Seq<Seq<char>>,
>
    decreases pieces.len() - i,
{
    if i < 0 || i >= pieces.len() {
        Some(stack)
    } else {
        let c = pieces[i];
        if c.len() == 0 || is_dot(c) {
            spec_walk(stack, pieces, i + 1)
        } else if is_dot_dot(c) {
            if stack.len() == 0 {
                None
            } else {
                spec_walk(stack.drop_last(), pieces, i + 1)
            }
        } else {
            spec_walk(stack.push(c), pieces, i + 1)
        }
    }
}

/// The vault-relative image path that a Markdown image destination names from
/// inside a note, or why it is refused.
pub open spec fn spec_markdown_image_path(note: Seq<char>, destination: Seq<char>) -> Result<
    Seq<char>,
    Seq<char>,
> {
    match spec_relative_path_error(note, true) {
        Some(e) => Err(e),
        None => if destination.len() == 0 || spec_contains_char(destination, '\\')
            || spec_contains_char(destination, '#') || spec_contains_char(destination, '?')
            || spec_any_control(destination) {
            Err("The Markdown image path is not a safe local vault path."@)
        } else {
            let base = if destination[0] == '/' {
                Seq::empty()
            } else {
                spec_nonempty_pieces(spec_split(spec_parent(note), '/'))
            };
            let pieces = spec_split(spec_trim_start_in(destination, seq!['/']), '/');
            match spec_walk(base, pieces, 0) {
                None => Err("The Markdown image path escapes the vault."@),
                Some(stack) => {
                    let relative = spec_join(stack, '/');
                    match spec_image_relative_path_error(relative) {
                        Some(e) => Err(e),
                        None => Ok(relative),
                    }
                },
            }
        },
    }
}

fn nonempty_pieces(pieces: Vec<Vec<char>>) -> (r: Vec<Vec<char>>)
    ensures
        deep_chars(r@) == spec_nonempty_pieces(deep_chars(pieces@)),
{
    let ghost d = deep_chars(pieces@);
    let mut r: Vec<Vec<char>> = Vec::new();
    let mut i: usize = 0;
    while i < pieces.len()
        invariant
            i <= pieces.len(),
            d == deep_chars(pieces@),
            deep_chars(r@) == spec_nonempty_pieces(d.take(i as int)),
        decreases pieces.len() - i,
    {
        assert(d.take(i as int + 1).drop_last() == d.take(i as int));
        if pieces[i].len() > 0 {
            r.push(pieces[i].clone());
        }
        i = i + 1;
    }
    assert(d.take(pieces.len() as int) == d);
    r
}

/// Resolves a Markdown image destination, relative to the note's folder or,
/// with a leading `/`, to the vault, into a vault-relative image path.
pub fn resolve_markdown_image_path(note_relative_path: &str, destination: &str) -> (r: Result<
    String,
    String,
>)
    ensures
        match r {
            Ok(p) => spec_markdown_image_path(note_relative_path@, destination@) == Ok::<
                Seq<char>,
                Seq<char>,
            >(p@),
            Err(e) => spec_markdown_image_path(note_relative_path@, destination@) == Err::<
                Seq<char>,
                Seq<char>,
            >(e@),
        },
{
    let note = chars_of(note_relative_path);
    match validate_relative_path_chars(&note, true) {
        Ok(()) => {},
        Err(e) => return Err(e),
    }
    let dest = chars_of(destination);
    if dest.len() == 0 || contains_char(&dest, '\\') || contains_char(&dest, '#')
        || contains_char(&dest, '?') || any_control(&dest) {
        return Err(owned("The Markdown image path is not a safe local vault path."));
    }
    let mut stack: Vec<Vec<char>> = if dest[0] == '/' {
        let empty: Vec<Vec<char>> = Vec::new();
        assert(deep_chars(empty@) == Seq::<Seq<char>>::empty());
        empty
    } else {
        let folder = parent(&note);
        nonempty_pieces(split(&folder, '/'))
    };
    let ghost base = deep_chars(stack@);
    let slash = ['/'];
    assert(slash@ == seq!['/']);
    let trimmed = trim_start_in(&dest, slash.as_slice());
    let pieces = split(&trimmed, '/');
    let ghost d = deep_chars(pieces@);
    let mut i: usize = 0;
    while i < pieces.len()
        invariant
            i <= pieces.len(),
            d == deep_chars(pieces@),
            spec_walk(base, d, 0) == spec_walk(deep_chars(stack@), d, i as int),
        decreases pieces.len() - i,
    {
        let c = &pieces[i];
        assert(c@ == d[i as int]);
        if c.len() == 0 || (c.len() == 1 && c[0] == '.') {
        } else if c.len() == 2 && c[0] == '.' && c[1] == '.' {
            if stack.len() == 0 {
                assert(spec_walk(deep_chars(stack@), d, i as int) is None);
                return Err(owned("The Markdown image path escapes the vault."));
            }
            let ghost before = deep_chars(stack@);
            stack.pop();
            assert(deep_chars(stack@) == before.drop_last());
        } else {
            let ghost before = deep_chars(stack@);
            stack.push(c.clone());
            assert(deep_chars(stack@) == before.push(c@));
        }
        i = i + 1;
    }
    assert(spec_walk(deep_chars(stack@), d, i as int) == Some(deep_chars(stack@)));
    let relative = join(&stack, '/');
    match validate_image_relative_path_chars(&relative) {
        Ok(()) => Ok(crate::text::string_of(&relative)),
        Err(e) => Err(e),
    }
}


/// A path the vault-path checks accept never leaves the vault: it is not
/// empty, starts with no `/` or `\`, holds no `\`, and none of its
/// `/`-separated pieces is empty, `.` or `..`.
pub proof fn lemma_accepted_paths_stay_inside(path: Seq<char>, file: bool)
    requires
        spec_relative_path_error(path, file) is None,
    ensures
        path.len() > 0,
        path[0] != '/',
        !spec_contains_char(path, '\\'),
        forall|i: int| 0 <= i < spec_split(path, '/').len() ==> {
            let piece = #[trigger] spec_split(path, '/')[i];
            piece.len() > 0 && !is_dot(piece) && !is_dot_dot(piece)
        },
{
    let pieces = spec_split(path, '/');
    assert forall|i: int| 0 <= i < pieces.len() implies {
        let piece = #[trigger] pieces[i];
        piece.len() > 0 && !is_dot(piece) && !is_dot_dot(piece)
    } by {
        lemma_pieces_error_none(pieces, file, 0, i);
    }
}

proof fn lemma_pieces_error_none(pieces: Seq<Seq<char>>, file: bool, start: int, i: int)
    requires
        0 <= start <= i < pieces.len(),
        spec_pieces_error(pieces, file, start) is None,
    ensures
        spec_piece_error(pieces[i], !file || i + 1 < pieces.len()) is None,
    decreases i - start,
{
    if start < i {
        lemma_pieces_error_none(pieces, file, start + 1, i);
    }
}

/// Every path a Markdown image link resolves to is one the image-path
/// checks accept, so it stays inside the vault.
pub proof fn lemma_resolved_image_paths_are_accepted(note: Seq<char>, destination: Seq<char>)
    requires
        spec_markdown_image_path(note, destination) is Ok,
    ensures
        spec_image_relative_path_error(spec_markdown_image_path(note, destination)->Ok_0) is None,
        spec_relative_path_error(spec_markdown_image_path(note, destination)->Ok_0, false) is None,
{
}

} // verus!
