//! Rules for non-image files kept in a vault: their media types, which of
//! them are archives or programs, and the names new copies receive.
#![verifier::loop_isolation(false)]

use crate::encoding::{decimal, spec_decimal};
use crate::media::{bytes_at, bytes_at_exec};
use crate::paths::{extension, file_stem, spec_extension, spec_file_stem};
use crate::text::{chars_eq, chars_of, extend_chars, owned, position_of, spec_lower, string_of, to_ascii_lower};
use crate::workspace_paths::{
    spec_attachment_relative_path_error, spec_image_relative_path_error,
    validate_attachment_relative_path, validate_image_relative_path,
};
use vstd::prelude::*;

verus! {

/// A path's extension in lower case, or nothing when it has none.
pub open spec fn spec_lower_extension(path: Seq<char>) -> Seq<char> {
    match spec_extension(path) {
        Some(e) => spec_lower(e),
        None => Seq::empty(),
    }
}

fn lower_extension(path: &str) -> (r: Vec<char>)
    ensures
        r@ == spec_lower_extension(path@),
{
    match extension(&chars_of(path)) {
        Some(e) => to_ascii_lower(&e),
        None => Vec::new(),
    }
}

/// The extensions of archives, which are saved elsewhere rather than opened.
pub open spec fn spec_archive_extensions() -> Seq<Seq<char>> {
    seq!["7z"@, "bz2"@, "gz"@, "rar"@, "tar"@, "tgz"@, "xz"@, "zip"@]
}

/// The extensions of programs and installers, which are never opened.
pub open spec fn spec_executable_extensions() -> Seq<Seq<char>> {
    seq!["app"@, "appimage"@, "appx"@, "appxbundle"@, "bat"@, "bin"@, "cmd"@, "command"@, "com"@, "cpl"@, "deb"@, "desktop"@, "dmg"@, "exe"@, "fish"@, "hta"@, "jar"@, "js"@, "jse"@, "lnk"@, "msc"@, "msi"@, "msix"@, "msixbundle"@, "msp"@, "mst"@, "pif"@, "pkg"@, "ps1"@, "psm1"@, "py"@, "pyw"@, "reg"@, "rpm"@, "run"@, "scr"@, "sh"@, "tool"@, "vbe"@, "vbs"@, "wsf"@, "wsh"@, "zsh"@]
}

/// Whether a path names an archive by its extension, in any letter case.
pub open spec fn spec_is_archive_attachment_path(path: Seq<char>) -> bool {
    spec_archive_extensions().contains(spec_lower_extension(path))
}

/// Whether a path names a program or installer by its extension, in any letter case.
pub open spec fn spec_is_executable_attachment_path(path: Seq<char>) -> bool {
    spec_executable_extensions().contains(spec_lower_extension(path))
}

/// Whether a path names an archive (7z, bz2, gz, rar, tar, tgz, xz, zip).
pub fn is_archive_attachment_path(path: &str) -> (r: bool)
    ensures
        r == spec_is_archive_attachment_path(path@),
{
    let options: [&str; 8] = ["7z", "bz2", "gz", "rar", "tar", "tgz", "xz", "zip"];
    assert(options@.map_values(|s: &str| s@) =~= spec_archive_extensions());
    position_of(&lower_extension(path), &options).is_some()
}

/// Whether a path names a program, script or installer by its extension.
pub fn is_executable_attachment_path(path: &str) -> (r: bool)
    ensures
        r == spec_is_executable_attachment_path(path@),
{
    let options: [&str; 43] = ["app", "appimage", "appx", "appxbundle", "bat", "bin", "cmd", "command", "com", "cpl", "deb", "desktop", "dmg", "exe", "fish", "hta", "jar", "js", "jse", "lnk", "msc", "msi", "msix", "msixbundle", "msp", "mst", "pif", "pkg", "ps1", "psm1", "py", "pyw", "reg", "rpm", "run", "scr", "sh", "tool", "vbe", "vbs", "wsf", "wsh", "zsh"];
    assert(options@.map_values(|s: &str| s@) =~= spec_executable_extensions());
    position_of(&lower_extension(path), &options).is_some()
}

/// The media type recorded for an attachment, by its extension in any
/// letter case; `application/octet-stream` for any other.
pub open spec fn spec_attachment_media_type(path: Seq<char>) -> Seq<char> {
    let e = spec_lower_extension(path);
    if e == "pdf"@ {
        "application/pdf"@
    } else if e == "zip"@ {
        "application/zip"@
    } else if e == "gz"@ {
        "application/gzip"@
    } else if e == "tgz"@ {
        "application/gzip"@
    } else if e == "tar"@ {
        "application/x-tar"@
    } else if e == "7z"@ {
        "application/x-7z-compressed"@
    } else if e == "rar"@ {
        "application/vnd.rar"@
    } else if e == "json"@ {
        "application/json"@
    } else if e == "txt"@ {
        "text/plain"@
    } else if e == "log"@ {
        "text/plain"@
    } else if e == "csv"@ {
        "text/csv"@
    } else if e == "rtf"@ {
        "application/rtf"@
    } else if e == "doc"@ {
        "application/msword"@
    } else if e == "docx"@ {
        "application/vnd.openxmlformats-officedocument.wordprocessingml.document"@
    } else if e == "xls"@ {
        "application/vnd.ms-excel"@
    } else if e == "xlsx"@ {
        "application/vnd.openxmlformats-officedocument.spreadsheetml.sheet"@
    } else if e == "ppt"@ {
        "application/vnd.ms-powerpoint"@
    } else if e == "pptx"@ {
        "application/vnd.openxmlformats-officedocument.presentationml.presentation"@
    } else if e == "odt"@ {
        "application/vnd.oasis.opendocument.text"@
    } else if e == "ods"@ {
        "application/vnd.oasis.opendocument.spreadsheet"@
    } else if e == "odp"@ {
        "application/vnd.oasis.opendocument.presentation"@
    } else if e == "mp3"@ {
        "audio/mpeg"@
    } else if e == "m4a"@ {
        "audio/mp4"@
    } else if e == "wav"@ {
        "audio/wav"@
    } else if e == "ogg"@ {
        "audio/ogg"@
    } else if e == "mp4"@ {
        "video/mp4"@
    } else if e == "m4v"@ {
        "video/mp4"@
    } else if e == "mov"@ {
        "video/quicktime"@
    } else if e == "webm"@ {
        "video/webm"@
    } else {
        "application/octet-stream"@
    }
}

/// The media type recorded for an attachment, by its extension.
pub fn attachment_media_type_for_path(path: &str) -> (r: &'static str)
    ensures
        r@ == spec_attachment_media_type(path@),
{
    let e = lower_extension(path);
    if chars_eq(&e, &chars_of("pdf")) {
        "application/pdf"
    } else if chars_eq(&e, &chars_of("zip")) {
        "application/zip"
    } else if chars_eq(&e, &chars_of("gz")) {
        "application/gzip"
    } else if chars_eq(&e, &chars_of("tgz")) {
        "application/gzip"
    } else if chars_eq(&e, &chars_of("tar")) {
        "application/x-tar"
    } else if chars_eq(&e, &chars_of("7z")) {
        "application/x-7z-compressed"
    } else if chars_eq(&e, &chars_of("rar")) {
        "application/vnd.rar"
    } else if chars_eq(&e, &chars_of("json")) {
        "application/json"
    } else if chars_eq(&e, &chars_of("txt")) {
        "text/plain"
    } else if chars_eq(&e, &chars_of("log")) {
        "text/plain"
    } else if chars_eq(&e, &chars_of("csv")) {
        "text/csv"
    } else if chars_eq(&e, &chars_of("rtf")) {
        "application/rtf"
    } else if chars_eq(&e, &chars_of("doc")) {
        "application/msword"
    } else if chars_eq(&e, &chars_of("docx")) {
        "application/vnd.openxmlformats-officedocument.wordprocessingml.document"
    } else if chars_eq(&e, &chars_of("xls")) {
        "application/vnd.ms-excel"
    } else if chars_eq(&e, &chars_of("xlsx")) {
        "application/vnd.openxmlformats-officedocument.spreadsheetml.sheet"
    } else if chars_eq(&e, &chars_of("ppt")) {
        "application/vnd.ms-powerpoint"
    } else if chars_eq(&e, &chars_of("pptx")) {
        "application/vnd.openxmlformats-officedocument.presentationml.presentation"
    } else if chars_eq(&e, &chars_of("odt")) {
        "application/vnd.oasis.opendocument.text"
    } else if chars_eq(&e, &chars_of("ods")) {
        "application/vnd.oasis.opendocument.spreadsheet"
    } else if chars_eq(&e, &chars_of("odp")) {
        "application/vnd.oasis.opendocument.presentation"
    } else if chars_eq(&e, &chars_of("mp3")) {
        "audio/mpeg"
    } else if chars_eq(&e, &chars_of("m4a")) {
        "audio/mp4"
    } else if chars_eq(&e, &chars_of("wav")) {
        "audio/wav"
    } else if chars_eq(&e, &chars_of("ogg")) {
        "audio/ogg"
    } else if chars_eq(&e, &chars_of("mp4")) {
        "video/mp4"
    } else if chars_eq(&e, &chars_of("m4v")) {
        "video/mp4"
    } else if chars_eq(&e, &chars_of("mov")) {
        "video/quicktime"
    } else if chars_eq(&e, &chars_of("webm")) {
        "video/webm"
    } else {
        "application/octet-stream"
    }
}

/// The Mach-O and universal-binary magic numbers, in both byte orders.
pub open spec fn spec_mach_magics() -> Seq<Seq<u8>> {
    seq![
        seq![0xfeu8, 0xedu8, 0xfau8, 0xceu8],
        seq![0xceu8, 0xfau8, 0xedu8, 0xfeu8],
        seq![0xfeu8, 0xedu8, 0xfau8, 0xcfu8],
        seq![0xcfu8, 0xfau8, 0xedu8, 0xfeu8],
        seq![0xcau8, 0xfeu8, 0xbau8, 0xbeu8],
        seq![0xbeu8, 0xbau8, 0xfeu8, 0xcau8],
        seq![0xcau8, 0xfeu8, 0xbau8, 0xbfu8],
        seq![0xbfu8, 0xbau8, 0xfeu8, 0xcau8],
    ]
}

/// Whether the first bytes of a file mark it as a program: a `#!` script,
/// a Windows `MZ` executable, an ELF binary, or a Mach-O binary.
pub open spec fn spec_prefix_is_executable(prefix: Seq<u8>) -> bool {
    ||| bytes_at(prefix, 0, seq![0x23u8, 0x21u8])
    ||| bytes_at(prefix, 0, seq![0x4du8, 0x5au8])
    ||| bytes_at(prefix, 0, seq![0x7fu8, 0x45u8, 0x4cu8, 0x46u8])
    ||| (prefix.len() >= 4 && spec_mach_magics().contains(prefix.take(4)))
}

/// Whether the first bytes of a file mark it as a program.
pub fn attachment_prefix_is_executable(prefix: &[u8]) -> (r: bool)
    ensures
        r == spec_prefix_is_executable(prefix@),
{
    let shebang: [u8; 2] = [0x23, 0x21];
    let windows: [u8; 2] = [0x4d, 0x5a];
    let elf: [u8; 4] = [0x7f, 0x45, 0x4c, 0x46];
    assert(shebang@ == seq![0x23u8, 0x21u8]);
    assert(windows@ == seq![0x4du8, 0x5au8]);
    assert(elf@ == seq![0x7fu8, 0x45u8, 0x4cu8, 0x46u8]);
    if bytes_at_exec(prefix, 0, &shebang) || bytes_at_exec(prefix, 0, &windows)
        || bytes_at_exec(prefix, 0, &elf) {
        return true;
    }
    if prefix.len() < 4 {
        return false;
    }
    let magics: [[u8; 4]; 8] = [
        [0xfe, 0xed, 0xfa, 0xce],
        [0xce, 0xfa, 0xed, 0xfe],
        [0xfe, 0xed, 0xfa, 0xcf],
        [0xcf, 0xfa, 0xed, 0xfe],
        [0xca, 0xfe, 0xba, 0xbe],
        [0xbe, 0xba, 0xfe, 0xca],
        [0xca, 0xfe, 0xba, 0xbf],
        [0xbf, 0xba, 0xfe, 0xca],
    ];
    assert(magics@.map_values(|m: [u8; 4]| m@) =~= spec_mach_magics());
    let mut i: usize = 0;
    while i < 8
        invariant
            i <= 8,
            prefix@.len() >= 4,
            magics@.map_values(|m: [u8; 4]| m@) == spec_mach_magics(),
            forall|j: int| 0 <= j < i ==> spec_mach_magics()[j] != prefix@.take(4),
        decreases 8 - i,
    {
        let m: [u8; 4] = magics[i];
        assert(m@ == spec_mach_magics()[i as int]);
        assert(prefix@.subrange(0, 4) == prefix@.take(4));
        if bytes_at_exec(prefix, 0, &m) {
            return true;
        }
        i = i + 1;
    }
    false
}

/// Whether the app refuses to open an attachment: archives never are
/// refused (they are saved elsewhere instead), programs by name always are;
/// otherwise a file with any execute permission bit (`mode & 0o111`) or
/// whose first bytes mark a program is refused.
pub open spec fn spec_attachment_opening_disabled(path: Seq<char>, mode: u32, prefix: Seq<u8>) -> bool {
    if spec_is_archive_attachment_path(path) {
        false
    } else if spec_is_executable_attachment_path(path) {
        true
    } else {
        (mode & 0x49u32) != 0 || spec_prefix_is_executable(prefix)
    }
}

/// The decision on opening an attachment that its name alone settles.
pub fn attachment_opening_decided_by_name(path: &str) -> (r: Option<bool>)
    ensures
        r == (if spec_is_archive_attachment_path(path@) {
            Some(false)
        } else if spec_is_executable_attachment_path(path@) {
            Some(true)
        } else {
            None::<bool>
        }),
{
    if is_archive_attachment_path(path) {
        Some(false)
    } else if is_executable_attachment_path(path) {
        Some(true)
    } else {
        None
    }
}

/// Whether the app refuses to open an attachment, given its permission
/// `mode` (0 where the system has none) and its first bytes (up to 8).
pub fn attachment_opening_is_disabled(path: &str, mode: u32, prefix: &[u8]) -> (r: bool)
    ensures
        r == spec_attachment_opening_disabled(path@, mode, prefix@),
{
    match attachment_opening_decided_by_name(path) {
        Some(d) => d,
        None => (mode & 0x49u32) != 0 || attachment_prefix_is_executable(prefix),
    }
}

// ---------------------------------------------------------------------------
// Names for new copies
// ---------------------------------------------------------------------------

/// The most names tried for a new copy before giving up.
pub const MAX_UNIQUE_NAME_ATTEMPTS: u32 = 10000;

/// A name placed in a vault folder; the root is the empty folder.
pub open spec fn spec_in_folder(folder: Seq<char>, name: Seq<char>) -> Seq<char> {
    if folder.len() == 0 {
        name
    } else {
        folder + seq!['/'] + name
    }
}

/// The `index`-th name tried for a new image: the name itself first, then
/// `stem index.extension` (stem `Image` and extension `png` where missing).
pub open spec fn spec_image_candidate_name(file_name: Seq<char>, index: nat) -> Seq<char> {
    if index == 1 {
        file_name
    } else {
        let stem = match spec_file_stem(file_name) {
            Some(s) => s,
            None => "Image"@,
        };
        let ext = match spec_extension(file_name) {
            Some(e) => e,
            None => "png"@,
        };
        stem + seq![' '] + spec_decimal(index) + seq!['.'] + ext
    }
}

/// The `index`-th name tried for a new attachment: the name itself first,
/// then `stem index.extension`, or `stem index` without an extension.
pub open spec fn spec_attachment_candidate_name(file_name: Seq<char>, index: nat) -> Seq<char> {
    if index == 1 {
        file_name
    } else {
        let stem = match spec_file_stem(file_name) {
            Some(s) => s,
            None => "Attachment"@,
        };
        match spec_extension(file_name) {
            Some(e) => stem + seq![' '] + spec_decimal(index) + seq!['.'] + e,
            None => stem + seq![' '] + spec_decimal(index),
        }
    }
}

/// The `index`-th vault path tried for a new image, or why there is none.
pub open spec fn spec_unique_image_candidate(folder: Seq<char>, file_name: Seq<char>, index: nat) -> Result<Seq<char>, Seq<char>> {
    if index < 1 || index > MAX_UNIQUE_NAME_ATTEMPTS {
        Err("Could not choose a unique file name for the embedded image."@)
    } else {
        let p = spec_in_folder(folder, spec_image_candidate_name(file_name, index));
        match spec_image_relative_path_error(p) {
            Some(e) => Err(e),
            None => Ok(p),
        }
    }
}

/// The `index`-th vault path tried for a new attachment, or why there is none.
pub open spec fn spec_unique_attachment_candidate(folder: Seq<char>, file_name: Seq<char>, index: nat) -> Result<Seq<char>, Seq<char>> {
    if index < 1 || index > MAX_UNIQUE_NAME_ATTEMPTS {
        Err("Could not choose a unique file name for the embedded attachment."@)
    } else {
        let p = spec_in_folder(folder, spec_attachment_candidate_name(file_name, index));
        match spec_attachment_relative_path_error(p) {
            Some(e) => Err(e),
            None => Ok(p),
        }
    }
}

fn in_folder(folder: &str, name: &[char]) -> (r: String)
    ensures
        r@ == spec_in_folder(folder@, name@),
{
    let mut v = chars_of(folder);
    if v.len() > 0 {
        v.push('/');
    }
    extend_chars(&mut v, name);
    string_of(&v)
}

/// The `index`-th vault path tried for a new image named `file_name` in
/// `folder` (indices start at 1), checked as an image path; an error once
/// the attempts are used up. The caller takes the first one not yet present.
pub fn unique_image_relative_path(folder: &str, file_name: &str, index: u32) -> (r: Result<String, String>)
    ensures
        crate::vault_paths::view_string_result(r) == spec_unique_image_candidate(folder@, file_name@, index as nat),
{
    if index < 1 || index > MAX_UNIQUE_NAME_ATTEMPTS {
        return Err(owned("Could not choose a unique file name for the embedded image."));
    }
    let name_chars = chars_of(file_name);
    let name = if index == 1 {
        name_chars
    } else {
        let mut c = match file_stem(&name_chars) {
            Some(s) => s,
            None => chars_of("Image"),
        };
        c.push(' ');
        extend_chars(&mut c, &decimal(index as u64));
        c.push('.');
        let e = match extension(&name_chars) {
            Some(e) => e,
            None => chars_of("png"),
        };
        extend_chars(&mut c, &e);
        assert(c@ =~= spec_image_candidate_name(file_name@, index as nat));
        c
    };
    let relative = in_folder(folder, &name);
    match validate_image_relative_path(relative.as_str()) {
        Err(e) => Err(e),
        Ok(()) => Ok(relative),
    }
}

/// The `index`-th vault path tried for a new attachment named `file_name`
/// in `folder` (indices start at 1), checked as an attachment path; an
/// error once the attempts are used up.
pub fn unique_attachment_relative_path(folder: &str, file_name: &str, index: u32) -> (r: Result<String, String>)
    ensures
        crate::vault_paths::view_string_result(r) == spec_unique_attachment_candidate(folder@, file_name@, index as nat),
{
    if index < 1 || index > MAX_UNIQUE_NAME_ATTEMPTS {
        return Err(owned("Could not choose a unique file name for the embedded attachment."));
    }
    let name_chars = chars_of(file_name);
    let name = if index == 1 {
        name_chars
    } else {
        let mut c = match file_stem(&name_chars) {
            Some(s) => s,
            None => chars_of("Attachment"),
        };
        c.push(' ');
        extend_chars(&mut c, &decimal(index as u64));
        match extension(&name_chars) {
            Some(e) => {
                c.push('.');
                extend_chars(&mut c, &e);
            },
            None => {},
        }
        assert(c@ =~= spec_attachment_candidate_name(file_name@, index as nat));
        c
    };
    let relative = in_folder(folder, &name);
    match validate_attachment_relative_path(relative.as_str()) {
        Err(e) => Err(e),
        Ok(()) => Ok(relative),
    }
}


/// The numbered paths tried for a new image (every try after the first) are
/// all different, so none is tried twice.
pub proof fn lemma_numbered_image_candidates_differ(folder: Seq<char>, file_name: Seq<char>, i: nat, j: nat)
    requires
        2 <= i,
        2 <= j,
        i != j,
        spec_unique_image_candidate(folder, file_name, i) is Ok,
        spec_unique_image_candidate(folder, file_name, j) is Ok,
    ensures
        spec_unique_image_candidate(folder, file_name, i)->Ok_0 != spec_unique_image_candidate(folder, file_name, j)->Ok_0,
{
    let pre = if folder.len() == 0 { Seq::<char>::empty() } else { folder + seq!['/'] };
    let stem = match spec_file_stem(file_name) {
        Some(s) => s,
        None => "Image"@,
    };
    let ext = match spec_extension(file_name) {
        Some(e) => e,
        None => "png"@,
    };
    let head = pre + stem + seq![' '];
    let tail = seq!['.'] + ext;
    assert(spec_unique_image_candidate(folder, file_name, i)->Ok_0 =~= head + spec_decimal(i) + tail);
    assert(spec_unique_image_candidate(folder, file_name, j)->Ok_0 =~= head + spec_decimal(j) + tail);
    if head + spec_decimal(i) + tail == head + spec_decimal(j) + tail {
        crate::text::lemma_middle_injective(head, spec_decimal(i), spec_decimal(j), tail);
        crate::encoding::lemma_decimal_injective(i, j);
    }
}

/// The numbered paths tried for a new attachment (every try after the first)
/// are all different.
pub proof fn lemma_numbered_attachment_candidates_differ(folder: Seq<char>, file_name: Seq<char>, i: nat, j: nat)
    requires
        2 <= i,
        2 <= j,
        i != j,
        spec_unique_attachment_candidate(folder, file_name, i) is Ok,
        spec_unique_attachment_candidate(folder, file_name, j) is Ok,
    ensures
        spec_unique_attachment_candidate(folder, file_name, i)->Ok_0 != spec_unique_attachment_candidate(folder, file_name, j)->Ok_0,
{
    let pre = if folder.len() == 0 { Seq::<char>::empty() } else { folder + seq!['/'] };
    let stem = match spec_file_stem(file_name) {
        Some(s) => s,
        None => "Attachment"@,
    };
    let head = pre + stem + seq![' '];
    let tail = match spec_extension(file_name) {
        Some(e) => seq!['.'] + e,
        None => Seq::<char>::empty(),
    };
    assert(spec_unique_attachment_candidate(folder, file_name, i)->Ok_0 =~= head + spec_decimal(i) + tail);
    assert(spec_unique_attachment_candidate(folder, file_name, j)->Ok_0 =~= head + spec_decimal(j) + tail);
    if head + spec_decimal(i) + tail == head + spec_decimal(j) + tail {
        crate::text::lemma_middle_injective(head, spec_decimal(i), spec_decimal(j), tail);
        crate::encoding::lemma_decimal_injective(i, j);
    }
}

} // verus!
