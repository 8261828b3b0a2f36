//! Safe file names derived from titles and from the names of files that are
//! copied into a vault.
#![verifier::loop_isolation(false)]

use crate::names::{
    spec_any_forbidden, is_forbidden_component_character, is_windows_reserved_name_chars, spec_component_name_error,
    spec_is_forbidden_component_character, spec_is_windows_reserved_name,
    validate_component_name_chars,
};
use crate::paths::{extension, file_stem, spec_components, spec_extension, spec_file_stem};
use crate::text::{
    chars_of, contains_char, eq_ignore_ascii_case, extend_chars, lemma_utf8_len_push, owned,
    spec_contains_char, spec_eq_ignore_ascii_case, spec_trim, spec_trim_end_in, spec_trim_in, spec_trim_start_in, spec_utf8_char_len,
    spec_utf8_len, string_of, sub_chars, trim, trim_in, utf8_char_len, utf8_len_exceeds,
};
use crate::workspace_paths::{
    spec_attachment_relative_path_error, validate_attachment_relative_path_chars,
};
use vstd::prelude::*;

verus! {

/// The longest stem, in bytes, after which no further character is taken.
pub const MAX_STEM_BYTES: usize = 120;

/// Replaces runs of unsafe characters by one `-`, and stops taking characters
/// once the result reaches 120 bytes. The flag tells whether the last
/// character taken was such a replacement.
pub open spec fn spec_sanitize_stem(s: Seq<char>) -> (Seq<char>, bool)
    decreases s.len(),
{
    if s.len() == 0 {
        (Seq::empty(), false)
    } else {
        let (r, replaced) = spec_sanitize_stem(s.drop_last());
        let c = s.last();
        if spec_utf8_len(r) >= MAX_STEM_BYTES {
            (r, replaced)
        } else if spec_is_forbidden_component_character(c) {
            if replaced {
                (r, true)
            } else {
                (r.push('-'), true)
            }
        } else {
            (r.push(c), false)
        }
    }
}

/// The stem, without surrounding spaces and dots, or the fallback when
/// nothing is left; a Windows device name gets a leading `_`.
pub open spec fn spec_finish_stem(r: Seq<char>, fallback: Seq<char>) -> Seq<char> {
    let t = spec_trim_in(r, seq![' ', '.']);
    let t2 = if t.len() == 0 {
        fallback
    } else {
        t
    };
    if spec_is_windows_reserved_name(t2) {
        seq!['_'] + t2
    } else {
        t2
    }
}

/// A file stem made from a note title or file name inside the vault.
pub open spec fn spec_safe_file_stem(input: Seq<char>, fallback: Seq<char>) -> Seq<char> {
    spec_finish_stem(spec_sanitize_stem(spec_trim(input)).0, fallback)
}

fn sanitize_stem(s: &[char]) -> (r: Vec<char>)
    ensures
        r@ == spec_sanitize_stem(s@).0,
{
    let mut r: Vec<char> = Vec::new();
    let mut replaced = false;
    let mut bytes: usize = 0;
    let mut i: usize = 0;
    while i < s.len()
        invariant
            i <= s.len(),
            (r@, replaced) == spec_sanitize_stem(s@.take(i as int)),
            bytes == spec_utf8_len(r@),
            bytes < MAX_STEM_BYTES + 4,
        decreases s.len() - i,
    {
        assert(s@.take(i as int + 1).drop_last() == s@.take(i as int));
        let c = s[i];
        if bytes < MAX_STEM_BYTES {
            proof {
                lemma_utf8_len_push(r@, c);
                lemma_utf8_len_push(r@, '-');
            }
            if is_forbidden_component_character(c) {
                if !replaced {
                    r.push('-');
                    bytes = bytes + 1;
                    replaced = true;
                }
            } else {
                r.push(c);
                bytes = bytes + utf8_char_len(c);
                replaced = false;
            }
        }
        i = i + 1;
    }
    assert(s@.take(s.len() as int) == s@);
    r
}

fn finish_stem(r: &[char], fallback: &[char]) -> (out: Vec<char>)
    ensures
        out@ == spec_finish_stem(r@, fallback@),
{
    let set = [' ', '.'];
    assert(set@ == seq![' ', '.']);
    let t = trim_in(r, set.as_slice());
    let t2 = if t.len() == 0 {
        sub_chars(fallback, 0, fallback.len())
    } else {
        t
    };
    assert(fallback@.subrange(0, fallback@.len() as int) == fallback@);
    if is_windows_reserved_name_chars(&t2) {
        let mut out: Vec<char> = Vec::new();
        out.push('_');
        extend_chars(&mut out, &t2);
        out
    } else {
        t2
    }
}

pub fn safe_file_stem_chars(input: &[char], fallback: &[char]) -> (r: Vec<char>)
    ensures
        r@ == spec_safe_file_stem(input@, fallback@),
{
    finish_stem(&sanitize_stem(&trim(input)), fallback)
}

/// A file stem made from a note title or file name: unsafe characters become
/// `-` (one per run), at most about 120 bytes are kept, surrounding spaces and
/// dots are dropped, `fallback` stands in for nothing, and Windows device
/// names get a leading `_`.
pub fn safe_file_stem(input: &str, fallback: &str) -> (r: String)
    ensures
        r@ == spec_safe_file_stem(input@, fallback@),
        !spec_any_forbidden(fallback@) ==> !spec_any_forbidden(r@),
{
    proof {
        if !spec_any_forbidden(fallback@) {
            lemma_safe_file_stem_is_safe(input@, fallback@);
        }
    }
    string_of(&safe_file_stem_chars(&chars_of(input), &chars_of(fallback)))
}

// ---------------------------------------------------------------------------
// Stems of exported notes
// ---------------------------------------------------------------------------

/// Whether byte offset `b` of `s`'s UTF-8 encoding falls between characters.
pub open spec fn spec_is_char_boundary(s: Seq<char>, b: int) -> bool {
    exists|k: int| 0 <= k <= s.len() && spec_utf8_len(s.take(k)) == b
}

pub open spec fn spec_is_ascii(s: Seq<char>) -> bool {
    forall|i: int| 0 <= i < s.len() ==> (#[trigger] s[i] as u32) < 0x80
}

/// Cutting `.extension` off `value` by byte count needs the cut to fall
/// between characters whenever `value` is long enough to be cut at all.
pub open spec fn spec_strip_extension_ok(value: Seq<char>, extension: Seq<char>) -> bool {
    spec_utf8_len(value) > extension.len() + 1 ==> spec_is_char_boundary(
        value,
        spec_utf8_len(value) - (extension.len() + 1),
    )
}

/// `value` without a final `.extension` in any ASCII letter case, unless that
/// would leave nothing.
pub open spec fn spec_strip_extension(value: Seq<char>, extension: Seq<char>) -> Seq<char> {
    let n = extension.len() + 1;
    if spec_utf8_len(value) > n && value.len() >= n && spec_eq_ignore_ascii_case(
        value.skip(value.len() - n),
        seq!['.'] + extension,
    ) {
        value.take(value.len() - n)
    } else {
        value
    }
}

/// Whether byte offset `b` of the UTF-8 encoding of `s` falls between characters.
pub fn is_char_boundary(s: &[char], b: usize) -> (r: bool)
    ensures
        r == spec_is_char_boundary(s@, b as int),
{
    let mut total: usize = 0;
    let mut i: usize = 0;
    while i < s.len()
        invariant
            i <= s.len(),
            total == spec_utf8_len(s@.take(i as int)),
            total <= b,
            forall|k: int| 0 <= k < i ==> spec_utf8_len(#[trigger] s@.take(k)) < b,
        decreases s.len() - i,
    {
        if total == b {
            return true;
        }
        assert(s@.take(i as int + 1).drop_last() == s@.take(i as int));
        let w = utf8_char_len(s[i]);
        if w > b - total {
            proof {
                assert forall|k: int| 0 <= k <= s@.len() implies spec_utf8_len(
                    #[trigger] s@.take(k),
                ) != b by {
                    if k > i {
                        lemma_prefix_len_monotone(s@, i as int + 1, k);
                    }
                }
            }
            return false;
        }
        total = total + w;
        i = i + 1;
    }
    if total == b {
        return true;
    }
    assert(s@.take(s@.len() as int) == s@);
    false
}

pub proof fn lemma_prefix_len_monotone(s: Seq<char>, a: int, b: int)
    requires
        0 <= a <= b <= s.len(),
    ensures
        spec_utf8_len(s.take(a)) <= spec_utf8_len(s.take(b)),
    decreases b - a,
{
    if a < b {
        lemma_prefix_len_monotone(s, a, b - 1);
        assert(s.take(b).drop_last() == s.take(b - 1));
    }
}

/// `value` without a final `.extension` in any ASCII letter case.
pub fn strip_extension_case_insensitive(value: &str, extension: &str) -> (r: String)
    requires
        spec_is_ascii(extension@),
        spec_strip_extension_ok(value@, extension@),
    ensures
        r@ == spec_strip_extension(value@, extension@),
{
    string_of(&strip_extension_chars(&chars_of(value), &chars_of(extension)))
}

pub fn strip_extension_chars(value: &[char], extension: &[char]) -> (r: Vec<char>)
    ensures
        r@ == spec_strip_extension(value@, extension@),
{
    let v = value;
    if extension.len() >= v.len() {
        return sub_chars(v, 0, v.len());
    }
    let n = extension.len() + 1;
    if utf8_len_exceeds(v, n) {
        let mut dotted: Vec<char> = Vec::new();
        dotted.push('.');
        extend_chars(&mut dotted, extension);
        let suffix = sub_chars(v, v.len() - n, v.len());
        assert(suffix@ == v@.skip(v.len() - n));
        if eq_ignore_ascii_case(&suffix, &dotted) {
            return sub_chars(v, 0, v.len() - n);
        }
    }
    assert(v@.subrange(0, v@.len() as int) == v@);
    sub_chars(v, 0, v.len())
}

/// A file stem made from the title of an exported note: like
/// `safe_file_stem`, after a final `.md` is cut from the trimmed title.
pub open spec fn spec_export_file_stem(input: Seq<char>, fallback: Seq<char>) -> Seq<char> {
    spec_finish_stem(
        spec_sanitize_stem(spec_strip_extension(spec_trim(input), "md"@)).0,
        fallback,
    )
}

/// A file stem made from the title of an exported note.
pub fn export_file_stem(input: &str, fallback: &str) -> (r: String)
    requires
        spec_strip_extension_ok(spec_trim(input@), "md"@),
    ensures
        r@ == spec_export_file_stem(input@, fallback@),
        !spec_any_forbidden(fallback@) ==> !spec_any_forbidden(r@),
{
    proof {
        if !spec_any_forbidden(fallback@) {
            lemma_export_file_stem_is_safe(input@, fallback@);
        }
    }
    let t = trim(&chars_of(input));
    let stripped = strip_extension_chars(&t, &chars_of("md"));
    string_of(&finish_stem(&sanitize_stem(&stripped), &chars_of(fallback)))
}

// ---------------------------------------------------------------------------
// Names of images and attachments copied into the vault
// ---------------------------------------------------------------------------

/// Unsafe characters each replaced by `-`.
pub open spec fn spec_replace_unsafe(s: Seq<char>) -> Seq<char> {
    s.map_values(|c: char| if spec_is_forbidden_component_character(c) { '-' } else { c })
}

/// The longest prefix of `s` that fits in `limit` bytes.
pub open spec fn spec_take_bytes(s: Seq<char>, limit: int) -> Seq<char>
    decreases s.len(),
{
    if s.len() == 0 || spec_utf8_char_len(s[0]) > limit {
        Seq::empty()
    } else {
        seq![s[0]] + spec_take_bytes(s.drop_first(), limit - spec_utf8_char_len(s[0]))
    }
}

/// The file name an embedded image is stored under: its stem with unsafe
/// characters replaced, surrounding spaces, dots and dashes dropped, cut to
/// 140 bytes, `Image` when nothing safe is left, then the detected extension.
pub open spec fn spec_safe_image_file_name(file_name: Seq<char>, extension: Seq<char>) -> Seq<
    char,
> {
    let source = spec_trim(
        match spec_file_stem(file_name) {
            Some(s) => s,
            None => "Image"@,
        },
    );
    let cut = spec_take_bytes(spec_trim_in(spec_replace_unsafe(source), seq![' ', '.', '-']), 140);
    let stem = if cut.len() == 0 || spec_is_windows_reserved_name(cut) {
        "Image"@
    } else {
        cut
    };
    stem + seq!['.'] + extension
}

fn replace_unsafe(s: &[char]) -> (r: Vec<char>)
    ensures
        r@ == spec_replace_unsafe(s@),
{
    let mut r: Vec<char> = Vec::new();
    let mut i: usize = 0;
    while i < s.len()
        invariant
            i <= s.len(),
            r@ == spec_replace_unsafe(s@.take(i as int)),
        decreases s.len() - i,
    {
        let c = s[i];
        r.push(if is_forbidden_component_character(c) { '-' } else { c });
        assert(spec_replace_unsafe(s@.take(i as int + 1)) =~= spec_replace_unsafe(s@.take(i as int)).push(
            if spec_is_forbidden_component_character(c) { '-' } else { c },
        ));
        i = i + 1;
    }
    assert(s@.take(s.len() as int) == s@);
    r
}

fn take_bytes(s: &[char], limit: usize) -> (r: Vec<char>)
    ensures
        r@ == spec_take_bytes(s@, limit as int),
{
    let mut r: Vec<char> = Vec::new();
    let mut used: usize = 0;
    let mut i: usize = 0;
    assert(s@.skip(0) == s@);
    while i < s.len()
        invariant
            i <= s.len(),
            used <= limit,
            r@ + spec_take_bytes(s@.skip(i as int), limit - used) == spec_take_bytes(s@, limit as int),
        decreases s.len() - i,
    {
        let w = utf8_char_len(s[i]);
        assert(s@.skip(i as int).drop_first() == s@.skip(i + 1));
        if w > limit - used {
            assert(spec_take_bytes(s@.skip(i as int), limit - used) == Seq::<char>::empty());
            assert(r@ + Seq::<char>::empty() == r@);
            return r;
        }
        r.push(s[i]);
        used = used + w;
        i = i + 1;
    }
    assert(r@ + Seq::<char>::empty() == r@);
    r
}

pub fn safe_image_file_name_chars(file_name: &[char], extension: &[char]) -> (r: Vec<char>)
    ensures
        r@ == spec_safe_image_file_name(file_name@, extension@),
{
    let source = match file_stem(file_name) {
        Some(s) => trim(&s),
        None => trim(&chars_of("Image")),
    };
    let set = [' ', '.', '-'];
    assert(set@ == seq![' ', '.', '-']);
    let cut = take_bytes(&trim_in(&replace_unsafe(&source), set.as_slice()), 140);
    let mut name = if cut.len() == 0 || is_windows_reserved_name_chars(&cut) {
        chars_of("Image")
    } else {
        cut
    };
    name.push('.');
    extend_chars(&mut name, extension);
    name
}

/// The file name an embedded image is stored under.
pub fn safe_image_file_name(file_name: &str, extension: &str) -> (r: String)
    ensures
        r@ == spec_safe_image_file_name(file_name@, extension@),
{
    string_of(&safe_image_file_name_chars(&chars_of(file_name), &chars_of(extension)))
}

/// The characters of an extension that are safe in a file name.
pub open spec fn spec_keep_safe(s: Seq<char>) -> Seq<char>
    decreases s.len(),
{
    if s.len() == 0 {
        Seq::empty()
    } else if spec_is_forbidden_component_character(s.last()) {
        spec_keep_safe(s.drop_last())
    } else {
        spec_keep_safe(s.drop_last()).push(s.last())
    }
}

/// The extension a copied file keeps: trimmed, unsafe characters dropped,
/// at most 40 characters.
pub open spec fn spec_safe_extension(path: Seq<char>) -> Seq<char> {
    let e = spec_keep_safe(
        spec_trim(
            match spec_extension(path) {
                Some(e) => e,
                None => Seq::empty(),
            },
        ),
    );
    if e.len() > 40 {
        e.take(40)
    } else {
        e
    }
}

/// A stem and an extension joined by `.`, or the stem alone.
pub open spec fn spec_with_extension(stem: Seq<char>, extension: Seq<char>) -> Seq<char> {
    if extension.len() == 0 {
        stem
    } else {
        stem + seq!['.'] + extension
    }
}

fn safe_extension(path: &[char]) -> (r: Vec<char>)
    ensures
        r@ == spec_safe_extension(path@),
{
    let e = match extension(path) {
        Some(e) => trim(&e),
        None => {
            let empty: Vec<char> = Vec::new();
            assert(crate::text::spec_trim_end(crate::text::spec_trim_start(Seq::<char>::empty()))
                == Seq::<char>::empty());
            empty
        },
    };
    let mut kept: Vec<char> = Vec::new();
    let mut i: usize = 0;
    while i < e.len()
        invariant
            i <= e.len(),
            kept@ == spec_keep_safe(e@.take(i as int)),
        decreases e.len() - i,
    {
        assert(e@.take(i as int + 1).drop_last() == e@.take(i as int));
        if !is_forbidden_component_character(e[i]) {
            kept.push(e[i]);
        }
        i = i + 1;
    }
    assert(e@.take(e.len() as int) == e@);
    if kept.len() > 40 {
        sub_chars(&kept, 0, 40)
    } else {
        kept
    }
}

fn with_extension(stem: Vec<char>, extension: &[char]) -> (r: Vec<char>)
    ensures
        r@ == spec_with_extension(stem@, extension@),
{
    let mut r = stem;
    if extension.len() > 0 {
        r.push('.');
        extend_chars(&mut r, extension);
    }
    r
}

/// The file name an embedded attachment is stored under, or why none is safe.
pub open spec fn spec_safe_attachment_file_name(file_name: Seq<char>) -> Result<Seq<char>, Seq<char>> {
    let stem = spec_safe_file_stem(
        match spec_file_stem(file_name) {
            Some(s) => s,
            None => "Attachment"@,
        },
        "Attachment"@,
    );
    let name = spec_with_extension(stem, spec_safe_extension(file_name));
    match spec_attachment_relative_path_error(name) {
        Some(e) => Err(e),
        None => Ok(name),
    }
}

/// The file name an embedded attachment is stored under.
pub fn safe_attachment_file_name(file_name: &str) -> (r: Result<String, String>)
    ensures
        crate::vault_paths::view_string_result(r) == spec_safe_attachment_file_name(file_name@),
{
    let f = chars_of(file_name);
    let source = match file_stem(&f) {
        Some(s) => s,
        None => chars_of("Attachment"),
    };
    let stem = safe_file_stem_chars(&source, &chars_of("Attachment"));
    let name = with_extension(stem, &safe_extension(&f));
    match validate_attachment_relative_path_chars(&name) {
        Ok(()) => Ok(string_of(&name)),
        Err(e) => Err(e),
    }
}

/// The name a dropped file is staged under, or why it is refused.
pub open spec fn spec_safe_external_file_name(file_name: Seq<char>) -> Result<Seq<char>, Seq<char>> {
    if spec_trim(file_name).len() == 0 || spec_contains_char(file_name, '/') || spec_contains_char(
        file_name,
        '\\',
    ) || spec_components(file_name).len() != 1 {
        Err("The dropped file name is not safe."@)
    } else {
        let stem = spec_safe_file_stem(
            match spec_file_stem(file_name) {
                Some(s) => s,
                None => "Dropped file"@,
            },
            "Dropped file"@,
        );
        let name = spec_with_extension(stem, spec_safe_extension(file_name));
        match spec_component_name_error(name, "file"@) {
            Some(e) => Err(e),
            None => Ok(name),
        }
    }
}

/// The name a dropped file is staged under.
pub fn safe_external_file_name(file_name: &str) -> (r: Result<String, String>)
    ensures
        crate::vault_paths::view_string_result(r) == spec_safe_external_file_name(file_name@),
{
    let f = chars_of(file_name);
    if trim(&f).len() == 0 || contains_char(&f, '/') || contains_char(&f, '\\')
        || crate::paths::components(&f).len() != 1 {
        return Err(owned("The dropped file name is not safe."));
    }
    let source = match file_stem(&f) {
        Some(s) => s,
        None => chars_of("Dropped file"),
    };
    let stem = safe_file_stem_chars(&source, &chars_of("Dropped file"));
    let name = with_extension(stem, &safe_extension(&f));
    match validate_component_name_chars(&name, &chars_of("file")) {
        Ok(()) => Ok(string_of(&name)),
        Err(e) => Err(e),
    }
}

// ---------------------------------------------------------------------------
// What a safe stem is
// ---------------------------------------------------------------------------

/// No character of the sanitized text is unsafe in a file name.
pub proof fn lemma_sanitized_has_no_forbidden(s: Seq<char>)
    ensures
        forall|i: int|
            0 <= i < spec_sanitize_stem(s).0.len() ==> !spec_is_forbidden_component_character(
                #[trigger] spec_sanitize_stem(s).0[i],
            ),
    decreases s.len(),
{
    if s.len() > 0 {
        lemma_sanitized_has_no_forbidden(s.drop_last());
        let r = spec_sanitize_stem(s.drop_last()).0;
        assert forall|i: int| 0 <= i < r.push('-').len() implies !spec_is_forbidden_component_character(
            #[trigger] r.push('-')[i],
        ) by {
            if i < r.len() {
                assert(r.push('-')[i] == r[i]);
            }
        }
        assert forall|i: int| 0 <= i < r.push(s.last()).len() && !spec_is_forbidden_component_character(s.last())
            implies !spec_is_forbidden_component_character(#[trigger] r.push(s.last())[i]) by {
            if i < r.len() {
                assert(r.push(s.last())[i] == r[i]);
            }
        }
    }
}

/// Text without unsafe characters is kept as it is, cut only once 120
/// bytes are taken: the result is a prefix of it, a strict one only when
/// the limit was reached.
pub proof fn lemma_sanitize_keeps_safe_text(s: Seq<char>)
    requires
        !spec_any_forbidden(s),
    ensures
        spec_sanitize_stem(s).0.len() <= s.len(),
        spec_sanitize_stem(s).0 == s.take(spec_sanitize_stem(s).0.len() as int),
        spec_sanitize_stem(s).0.len() < s.len() ==> spec_utf8_len(spec_sanitize_stem(s).0) >= MAX_STEM_BYTES,
    decreases s.len(),
{
    if s.len() > 0 {
        let d = s.drop_last();
        assert forall|i: int| 0 <= i < d.len() implies !spec_is_forbidden_component_character(#[trigger] d[i]) by {
            assert(d[i] == s[i]);
            if spec_is_forbidden_component_character(d[i]) {
                assert(spec_is_forbidden_component_character(s[i]));
            }
        }
        lemma_sanitize_keeps_safe_text(d);
        let r = spec_sanitize_stem(d).0;
        assert(!spec_is_forbidden_component_character(s[s.len() - 1]));
        if spec_utf8_len(r) < MAX_STEM_BYTES {
            assert(r.len() == d.len());
            assert(r == d);
            assert(r.push(s.last()) =~= s);
            assert(s.take(s.len() as int) =~= s);
        } else {
            assert(s.take(r.len() as int) =~= d.take(r.len() as int));
        }
    }
}

/// Text without unsafe characters whose UTF-8 encoding fits in 120 bytes
/// is kept whole.
pub proof fn lemma_sanitize_keeps_short_safe_text(s: Seq<char>)
    requires
        !spec_any_forbidden(s),
        spec_utf8_len(s) <= MAX_STEM_BYTES,
    ensures
        spec_sanitize_stem(s).0 == s,
{
    lemma_sanitize_keeps_safe_text(s);
    let r = spec_sanitize_stem(s).0;
    if r.len() < s.len() {
        lemma_utf8_len_take_grows(s, r.len() as int);
        assert(false);
    }
    assert(s.take(s.len() as int) =~= s);
}

/// A strict prefix encodes to fewer bytes than the whole.
proof fn lemma_utf8_len_take_grows(s: Seq<char>, k: int)
    requires
        0 <= k < s.len(),
    ensures
        spec_utf8_len(s.take(k)) < spec_utf8_len(s),
    decreases s.len(),
{
    assert(s.drop_last() == s.take(s.len() - 1));
    if k < s.len() - 1 {
        lemma_utf8_len_take_grows(s.drop_last(), k);
        assert(s.drop_last().take(k) =~= s.take(k));
    } else {
        assert(s.take(k) =~= s.drop_last());
    }
}

/// A run of unsafe characters, however long, becomes one `-`.
pub proof fn lemma_sanitize_collapses_unsafe_run(s: Seq<char>)
    requires
        s.len() > 0,
        forall|i: int| 0 <= i < s.len() ==> spec_is_forbidden_component_character(#[trigger] s[i]),
    ensures
        spec_sanitize_stem(s) == (seq!['-'], true),
    decreases s.len(),
{
    let d = s.drop_last();
    assert(spec_is_forbidden_component_character(s[s.len() - 1]));
    if d.len() == 0 {
        assert(spec_sanitize_stem(d) == (Seq::<char>::empty(), false));
        assert(spec_utf8_len(Seq::<char>::empty()) == 0);
        assert(Seq::<char>::empty().push('-') =~= seq!['-']);
    } else {
        assert forall|i: int| 0 <= i < d.len() implies spec_is_forbidden_component_character(#[trigger] d[i]) by {
            assert(d[i] == s[i]);
        }
        lemma_sanitize_collapses_unsafe_run(d);
        lemma_utf8_len_push(Seq::<char>::empty(), '-');
        assert(Seq::<char>::empty().push('-') =~= seq!['-']);
        assert(spec_utf8_len(Seq::<char>::empty()) == 0);
    }
}

proof fn lemma_trim_start_in_safe(s: Seq<char>, set: Seq<char>)
    requires
        !spec_any_forbidden(s),
    ensures
        !spec_any_forbidden(spec_trim_start_in(s, set)),
    decreases s.len(),
{
    if s.len() > 0 && set.contains(s[0]) {
        let d = s.drop_first();
        assert forall|i: int| 0 <= i < d.len() implies !spec_is_forbidden_component_character(#[trigger] d[i]) by {
            assert(d[i] == s[i + 1]);
            if spec_is_forbidden_component_character(d[i]) {
                assert(spec_is_forbidden_component_character(s[i + 1]));
            }
        }
        lemma_trim_start_in_safe(d, set);
    }
}

proof fn lemma_trim_end_in_safe(s: Seq<char>, set: Seq<char>)
    requires
        !spec_any_forbidden(s),
    ensures
        !spec_any_forbidden(spec_trim_end_in(s, set)),
    decreases s.len(),
{
    if s.len() > 0 && set.contains(s.last()) {
        let d = s.drop_last();
        assert forall|i: int| 0 <= i < d.len() implies !spec_is_forbidden_component_character(#[trigger] d[i]) by {
            assert(d[i] == s[i]);
            if spec_is_forbidden_component_character(d[i]) {
                assert(spec_is_forbidden_component_character(s[i]));
            }
        }
        lemma_trim_end_in_safe(d, set);
    }
}

/// Finishing a stem free of unsafe characters, with a fallback free of
/// them, leaves none.
proof fn lemma_finish_stem_safe(r: Seq<char>, fallback: Seq<char>)
    requires
        !spec_any_forbidden(r),
        !spec_any_forbidden(fallback),
    ensures
        !spec_any_forbidden(spec_finish_stem(r, fallback)),
{
    let set = seq![' ', '.'];
    lemma_trim_start_in_safe(r, set);
    lemma_trim_end_in_safe(spec_trim_start_in(r, set), set);
    let t = spec_trim_in(r, set);
    let t2 = if t.len() == 0 { fallback } else { t };
    if spec_is_windows_reserved_name(t2) {
        let u = seq!['_'] + t2;
        assert forall|i: int| 0 <= i < u.len() implies !spec_is_forbidden_component_character(#[trigger] u[i]) by {
            if i > 0 {
                assert(u[i] == t2[i - 1]);
                if spec_is_forbidden_component_character(u[i]) {
                    assert(spec_is_forbidden_component_character(t2[i - 1]));
                }
            }
        }
    }
}

proof fn lemma_sanitized_safe(s: Seq<char>)
    ensures
        !spec_any_forbidden(spec_sanitize_stem(s).0),
{
    lemma_sanitized_has_no_forbidden(s);
}

/// A stem made from any title or file name holds no character that is
/// unsafe in a file name (a path separator among them), whenever the
/// fallback holds none.
pub proof fn lemma_safe_file_stem_is_safe(input: Seq<char>, fallback: Seq<char>)
    requires
        !spec_any_forbidden(fallback),
    ensures
        !spec_any_forbidden(spec_safe_file_stem(input, fallback)),
{
    lemma_sanitized_safe(spec_trim(input));
    lemma_finish_stem_safe(spec_sanitize_stem(spec_trim(input)).0, fallback);
}

/// The stem of an exported note holds no character that is unsafe in a
/// file name, whenever the fallback holds none.
pub proof fn lemma_export_file_stem_is_safe(input: Seq<char>, fallback: Seq<char>)
    requires
        !spec_any_forbidden(fallback),
    ensures
        !spec_any_forbidden(spec_export_file_stem(input, fallback)),
{
    let t = spec_strip_extension(spec_trim(input), "md"@);
    lemma_sanitized_safe(t);
    lemma_finish_stem_safe(spec_sanitize_stem(t).0, fallback);
}

} // verus!
