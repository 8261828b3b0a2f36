//! Rules for single path components and identifiers.
use crate::text::{
    any_control, chars_eq, chars_of, concat3, eq_ignore_ascii_case, first_index, is_control,
    owned, spec_eq_ignore_ascii_case, spec_first_index, spec_is_ascii_alphanumeric,
    spec_is_control, spec_trim, spec_upper, spec_utf8_len, sub_chars, to_ascii_upper, trim,
    utf8_len_exceeds,
};
use vstd::prelude::*;

verus! {

/// Characters that are not safe in a file or folder name on common systems.
pub open spec fn spec_is_forbidden_component_character(c: char) -> bool {
    spec_is_control(c) || c == '/' || c == '\\' || c == ':' || c == '*' || c == '?' || c
        == '"' || c == '<' || c == '>' || c == '|'
}

pub fn is_forbidden_component_character(character: char) -> (r: bool)
    ensures
        r == spec_is_forbidden_component_character(character),
{
    is_control(character) || character == '/' || character == '\\' || character == ':'
        || character == '*' || character == '?' || character == '"' || character == '<'
        || character == '>' || character == '|'
}

pub open spec fn spec_any_forbidden(s: Seq<char>) -> bool {
    exists|i: int| 0 <= i < s.len() && spec_is_forbidden_component_character(#[trigger] s[i])
}

pub fn any_forbidden(s: &[char]) -> (r: bool)
    ensures
        r == spec_any_forbidden(s@),
{
    let mut i: usize = 0;
    while i < s.len()
        invariant
            i <= s.len(),
            forall|j: int| 0 <= j < i ==> !spec_is_forbidden_component_character(#[trigger] s@[j]),
        decreases s.len() - i,
    {
        if is_forbidden_component_character(s[i]) {
            return true;
        }
        i = i + 1;
    }
    false
}

/// Device names that Windows reserves, whatever follows the first `.`.
pub open spec fn spec_is_reserved_device(base: Seq<char>) -> bool {
    base == "CON"@ || base == "PRN"@ || base == "AUX"@ || base == "NUL"@ || base == "COM1"@
        || base == "COM2"@ || base == "COM3"@ || base == "COM4"@ || base == "COM5"@ || base
        == "COM6"@ || base == "COM7"@ || base == "COM8"@ || base == "COM9"@ || base == "LPT1"@
        || base == "LPT2"@ || base == "LPT3"@ || base == "LPT4"@ || base == "LPT5"@ || base
        == "LPT6"@ || base == "LPT7"@ || base == "LPT8"@ || base == "LPT9"@
}

/// Whether the part of `name` before its first `.`, in upper case, is a
/// Windows device name.
pub open spec fn spec_is_windows_reserved_name(name: Seq<char>) -> bool {
    spec_is_reserved_device(spec_upper(name.take(spec_first_index(name, '.'))))
}

fn is_reserved_device(base: &[char]) -> (r: bool)
    ensures
        r == spec_is_reserved_device(base@),
{
    chars_eq(base, &chars_of("CON")) || chars_eq(base, &chars_of("PRN")) || chars_eq(
        base,
        &chars_of("AUX"),
    ) || chars_eq(base, &chars_of("NUL")) || chars_eq(base, &chars_of("COM1")) || chars_eq(
        base,
        &chars_of("COM2"),
    ) || chars_eq(base, &chars_of("COM3")) || chars_eq(base, &chars_of("COM4")) || chars_eq(
        base,
        &chars_of("COM5"),
    ) || chars_eq(base, &chars_of("COM6")) || chars_eq(base, &chars_of("COM7")) || chars_eq(
        base,
        &chars_of("COM8"),
    ) || chars_eq(base, &chars_of("COM9")) || chars_eq(base, &chars_of("LPT1")) || chars_eq(
        base,
        &chars_of("LPT2"),
    ) || chars_eq(base, &chars_of("LPT3")) || chars_eq(base, &chars_of("LPT4")) || chars_eq(
        base,
        &chars_of("LPT5"),
    ) || chars_eq(base, &chars_of("LPT6")) || chars_eq(base, &chars_of("LPT7")) || chars_eq(
        base,
        &chars_of("LPT8"),
    ) || chars_eq(base, &chars_of("LPT9"))
}

pub fn is_windows_reserved_name_chars(name: &[char]) -> (r: bool)
    ensures
        r == spec_is_windows_reserved_name(name@),
{
    let k = first_index(name, '.');
    let base = sub_chars(name, 0, k);
    assert(base@ == name@.take(k as int));
    let upper = to_ascii_upper(&base);
    is_reserved_device(&upper)
}

pub fn is_windows_reserved_name(name: &str) -> (r: bool)
    ensures
        r == spec_is_windows_reserved_name(name@),
{
    is_windows_reserved_name_chars(&chars_of(name))
}

/// The app's metadata folder, Obsidian's settings, the trash and Git, in any
/// letter case.
pub open spec fn spec_is_reserved_workspace_directory(name: Seq<char>) -> bool {
    spec_eq_ignore_ascii_case(name, ".obsidian-at-home"@) || spec_eq_ignore_ascii_case(
        name,
        ".obsidian"@,
    ) || spec_eq_ignore_ascii_case(name, ".trash"@) || spec_eq_ignore_ascii_case(name, ".git"@)
}

pub fn is_reserved_workspace_directory_chars(name: &[char]) -> (r: bool)
    ensures
        r == spec_is_reserved_workspace_directory(name@),
{
    eq_ignore_ascii_case(name, &chars_of(".obsidian-at-home")) || eq_ignore_ascii_case(
        name,
        &chars_of(".obsidian"),
    ) || eq_ignore_ascii_case(name, &chars_of(".trash")) || eq_ignore_ascii_case(
        name,
        &chars_of(".git"),
    )
}

pub fn is_reserved_workspace_directory(name: &str) -> (r: bool)
    ensures
        r == spec_is_reserved_workspace_directory(name@),
{
    is_reserved_workspace_directory_chars(&chars_of(name))
}

/// Why a file or folder name is refused, or `None` when it is accepted.
pub open spec fn spec_component_name_error(name: Seq<char>, kind: Seq<char>) -> Option<
    Seq<char>,
> {
    let n = spec_trim(name);
    if n.len() == 0 || n == "."@ || n == ".."@ {
        Some("Enter a valid "@ + kind + " name."@)
    } else if spec_utf8_len(n) > 180 || n.last() == '.' || n.last() == ' ' || spec_any_forbidden(
        n,
    ) || spec_is_windows_reserved_name(n) || spec_is_reserved_workspace_directory(n) {
        Some("The "@ + kind + " name contains characters that are not safe in a path."@)
    } else {
        None
    }
}

pub fn validate_component_name_chars(name: &[char], kind: &[char]) -> (r: Result<(), String>)
    ensures
        match r {
            Ok(()) => spec_component_name_error(name@, kind@) is None,
            Err(e) => spec_component_name_error(name@, kind@) == Some(e@),
        },
{
    let n = trim(name);
    if n.len() == 0 || chars_eq(&n, &chars_of(".")) || chars_eq(&n, &chars_of("..")) {
        return Err(concat3("Enter a valid ", kind, " name."));
    }
    if utf8_len_exceeds(&n, 180) || n[n.len() - 1] == '.' || n[n.len() - 1] == ' '
        || any_forbidden(&n) || is_windows_reserved_name_chars(&n)
        || is_reserved_workspace_directory_chars(&n) {
        return Err(concat3("The ", kind, " name contains characters that are not safe in a path."));
    }
    Ok(())
}

/// Checks a single file or folder name, `kind` naming it in the message.
pub fn validate_component_name(name: &str, kind: &str) -> (r: Result<(), String>)
    ensures
        match r {
            Ok(()) => spec_component_name_error(name@, kind@) is None,
            Err(e) => spec_component_name_error(name@, kind@) == Some(e@),
        },
{
    validate_component_name_chars(&chars_of(name), &chars_of(kind))
}

pub open spec fn spec_is_asset_id_char(c: char) -> bool {
    spec_is_ascii_alphanumeric(c) || c == '_' || c == '-'
}

/// A stable asset ID: 1 to 180 bytes of ASCII letters, digits, `_` and `-`.
pub open spec fn spec_is_valid_asset_id(id: Seq<char>) -> bool {
    id.len() > 0 && spec_utf8_len(id) <= 180 && forall|i: int|
        0 <= i < id.len() ==> spec_is_asset_id_char(#[trigger] id[i])
}

pub fn is_valid_asset_id(id: &str) -> (r: bool)
    ensures
        r == spec_is_valid_asset_id(id@),
{
    let v = chars_of(id);
    if v.len() == 0 || utf8_len_exceeds(&v, 180) {
        return false;
    }
    let mut i: usize = 0;
    while i < v.len()
        invariant
            i <= v.len(),
            v@ == id@,
            forall|j: int| 0 <= j < i ==> spec_is_asset_id_char(#[trigger] v@[j]),
        decreases v.len() - i,
    {
        let c = v[i];
        let ok = ('0' <= c && c <= '9') || ('a' <= c && c <= 'z') || ('A' <= c && c <= 'Z')
            || c == '_' || c == '-';
        if !ok {
            assert(!spec_is_asset_id_char(id@[i as int]));
            return false;
        }
        i = i + 1;
    }
    true
}

pub open spec fn spec_is_transaction_id_char(c: char) -> bool {
    spec_is_ascii_alphanumeric(c) || c == '-'
}

/// A save transaction ID: 1 to 180 bytes of ASCII letters, digits and `-`.
pub open spec fn spec_is_valid_transaction_id(id: Seq<char>) -> bool {
    id.len() > 0 && spec_utf8_len(id) <= 180 && forall|i: int|
        0 <= i < id.len() ==> spec_is_transaction_id_char(#[trigger] id[i])
}

pub fn validate_transaction_id(transaction_id: &str) -> (r: Result<(), String>)
    ensures
        r is Ok <==> spec_is_valid_transaction_id(transaction_id@),
        r matches Err(e) ==> e@ == "The save transaction ID is invalid."@,
{
    let v = chars_of(transaction_id);
    if v.len() == 0 || utf8_len_exceeds(&v, 180) {
        return Err(owned("The save transaction ID is invalid."));
    }
    let mut i: usize = 0;
    while i < v.len()
        invariant
            i <= v.len(),
            v@ == transaction_id@,
            forall|j: int| 0 <= j < i ==> spec_is_transaction_id_char(#[trigger] v@[j]),
        decreases v.len() - i,
    {
        let c = v[i];
        let ok = ('0' <= c && c <= '9') || ('a' <= c && c <= 'z') || ('A' <= c && c <= 'Z')
            || c == '-';
        if !ok {
            assert(!spec_is_transaction_id_char(transaction_id@[i as int]));
            return Err(owned("The save transaction ID is invalid."));
        }
        i = i + 1;
    }
    Ok(())
}

/// The folder selections that are not real folders.
pub open spec fn spec_is_virtual_folder_selection(value: Seq<char>) -> bool {
    value == "all"@ || value == "favorites"@ || value == "recent"@
}

pub fn is_virtual_folder_selection(value: &str) -> (r: bool)
    ensures
        r == spec_is_virtual_folder_selection(value@),
{
    let v = chars_of(value);
    chars_eq(&v, &chars_of("all")) || chars_eq(&v, &chars_of("favorites")) || chars_eq(
        &v,
        &chars_of("recent"),
    )
}

} // verus!
