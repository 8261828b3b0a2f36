//! Media types, file-content signatures and the file-kind rules built on them.
use crate::paths::{extension, spec_extension};
use crate::text::{chars_eq, chars_of, owned, spec_lower, to_ascii_lower};
use vstd::prelude::*;

pub use self::is_supported_image_path_impl as is_supported_image_path;
pub use self::validate_image_bytes_impl as validate_image_bytes;

verus! {

/// The largest image the app stores: 50 MiB.
pub const MAX_IMAGE_BYTES: u64 = 52428800;

/// The largest attachment the app stores: 4 GiB.
pub const MAX_ATTACHMENT_BYTES: u64 = 4294967296;

/// The media type of a supported image extension, in any letter case.
pub open spec fn spec_image_media_type(extension: Seq<char>) -> Option<Seq<char>> {
    let e = spec_lower(extension);
    if e == "png"@ {
        Some("image/png"@)
    } else if e == "jpg"@ || e == "jpeg"@ {
        Some("image/jpeg"@)
    } else if e == "gif"@ {
        Some("image/gif"@)
    } else if e == "webp"@ {
        Some("image/webp"@)
    } else if e == "bmp"@ {
        Some("image/bmp"@)
    } else if e == "avif"@ {
        Some("image/avif"@)
    } else {
        None
    }
}

pub fn image_media_type_for_extension_chars(extension: &[char]) -> (r: Option<&'static str>)
    ensures
        match r {
            Some(m) => spec_image_media_type(extension@) == Some(m@),
            None => spec_image_media_type(extension@) is None,
        },
{
    let e = to_ascii_lower(extension);
    if chars_eq(&e, &chars_of("png")) {
        Some("image/png")
    } else if chars_eq(&e, &chars_of("jpg")) || chars_eq(&e, &chars_of("jpeg")) {
        Some("image/jpeg")
    } else if chars_eq(&e, &chars_of("gif")) {
        Some("image/gif")
    } else if chars_eq(&e, &chars_of("webp")) {
        Some("image/webp")
    } else if chars_eq(&e, &chars_of("bmp")) {
        Some("image/bmp")
    } else if chars_eq(&e, &chars_of("avif")) {
        Some("image/avif")
    } else {
        None
    }
}

/// The media type of a supported image extension, in any letter case.
pub fn image_media_type_for_extension(extension: &str) -> (r: Option<&'static str>)
    ensures
        match r {
            Some(m) => spec_image_media_type(extension@) == Some(m@),
            None => spec_image_media_type(extension@) is None,
        },
{
    image_media_type_for_extension_chars(&chars_of(extension))
}

/// Whether a path names a PNG, JPEG, GIF, WebP, BMP or AVIF file by its extension.
pub open spec fn spec_is_supported_image_path(path: Seq<char>) -> bool {
    match spec_extension(path) {
        Some(e) => spec_image_media_type(e) is Some,
        None => false,
    }
}

pub fn is_supported_image_path_chars(path: &[char]) -> (r: bool)
    ensures
        r == spec_is_supported_image_path(path@),
{
    match extension(path) {
        Some(e) => image_media_type_for_extension_chars(&e).is_some(),
        None => false,
    }
}

/// Whether a path names a PNG, JPEG, GIF, WebP, BMP or AVIF file by its extension.
pub fn is_supported_image_path_impl(path: &str) -> (r: bool)
    ensures
        r == spec_is_supported_image_path(path@),
{
    is_supported_image_path_chars(&chars_of(path))
}

pub open spec fn spec_extension_is(path: Seq<char>, a: Seq<char>) -> bool {
    match spec_extension(path) {
        Some(e) => spec_lower(e) == a,
        None => false,
    }
}

/// Whether a path ends in `.md` or `.markdown`, in any letter case.
pub open spec fn spec_is_markdown_path(path: Seq<char>) -> bool {
    spec_extension_is(path, "md"@) || spec_extension_is(path, "markdown"@)
}

/// Whether a path ends in `.canvas`, in any letter case.
pub open spec fn spec_is_canvas_path(path: Seq<char>) -> bool {
    spec_extension_is(path, "canvas"@)
}

pub fn is_markdown_path_chars(path: &[char]) -> (r: bool)
    ensures
        r == spec_is_markdown_path(path@),
{
    match extension(path) {
        Some(e) => {
            let l = to_ascii_lower(&e);
            chars_eq(&l, &chars_of("md")) || chars_eq(&l, &chars_of("markdown"))
        },
        None => false,
    }
}

/// Whether a path ends in `.md` or `.markdown`, in any letter case.
pub fn is_markdown_path(path: &str) -> (r: bool)
    ensures
        r == spec_is_markdown_path(path@),
{
    is_markdown_path_chars(&chars_of(path))
}

pub fn is_canvas_path_chars(path: &[char]) -> (r: bool)
    ensures
        r == spec_is_canvas_path(path@),
{
    match extension(path) {
        Some(e) => {
            let l = to_ascii_lower(&e);
            chars_eq(&l, &chars_of("canvas"))
        },
        None => false,
    }
}

/// Whether a path ends in `.canvas`, in any letter case.
pub fn is_canvas_path(path: &str) -> (r: bool)
    ensures
        r == spec_is_canvas_path(path@),
{
    is_canvas_path_chars(&chars_of(path))
}

// ---------------------------------------------------------------------------
// Content signatures
// ---------------------------------------------------------------------------

pub open spec fn bytes_at(b: Seq<u8>, at: int, p: Seq<u8>) -> bool {
    0 <= at && at + p.len() <= b.len() && b.subrange(at, at + p.len()) == p
}

pub fn bytes_at_exec(b: &[u8], at: usize, p: &[u8]) -> (r: bool)
    ensures
        r == bytes_at(b@, at as int, p@),
{
    if at > b.len() || p.len() > b.len() - at {
        return false;
    }
    let mut k: usize = 0;
    while k < p.len()
        invariant
            k <= p.len(),
            at + p.len() <= b.len(),
            forall|j: int| 0 <= j < k ==> b@[at + j] == p@[j],
        decreases p.len() - k,
    {
        if b[at + k] != p[k] {
            assert(b@.subrange(at as int, at + p.len())[k as int] != p@[k as int]);
            return false;
        }
        k = k + 1;
    }
    assert(b@.subrange(at as int, at + p.len()) =~= p@);
    true
}

pub open spec fn png_signature() -> Seq<u8> {
    seq![0x89u8, 0x50u8, 0x4eu8, 0x47u8, 0x0du8, 0x0au8, 0x1au8, 0x0au8]
}

pub open spec fn jpeg_signature() -> Seq<u8> {
    seq![0xffu8, 0xd8u8, 0xffu8]
}

pub open spec fn gif87_signature() -> Seq<u8> {
    seq![0x47u8, 0x49u8, 0x46u8, 0x38u8, 0x37u8, 0x61u8]
}

pub open spec fn gif89_signature() -> Seq<u8> {
    seq![0x47u8, 0x49u8, 0x46u8, 0x38u8, 0x39u8, 0x61u8]
}

/// `RIFF`
pub open spec fn riff_signature() -> Seq<u8> {
    seq![0x52u8, 0x49u8, 0x46u8, 0x46u8]
}

/// `WEBP`
pub open spec fn webp_tag() -> Seq<u8> {
    seq![0x57u8, 0x45u8, 0x42u8, 0x50u8]
}

/// `BM`
pub open spec fn bmp_signature() -> Seq<u8> {
    seq![0x42u8, 0x4du8]
}

/// `ftyp`
pub open spec fn ftyp_tag() -> Seq<u8> {
    seq![0x66u8, 0x74u8, 0x79u8, 0x70u8]
}

/// `avif`
pub open spec fn avif_brand() -> Seq<u8> {
    seq![0x61u8, 0x76u8, 0x69u8, 0x66u8]
}

/// `avis`
pub open spec fn avis_brand() -> Seq<u8> {
    seq![0x61u8, 0x76u8, 0x69u8, 0x73u8]
}

/// Whether the `k`-th 4-byte brand after the `ftyp` box type is `avif` or `avis`.
pub open spec fn avif_brand_at(b: Seq<u8>, k: int) -> bool {
    bytes_at(b, 8 + 4 * k, avif_brand()) || bytes_at(b, 8 + 4 * k, avis_brand())
}

/// Whether one of the 4-byte brands after the `ftyp` box type is an AVIF brand.
pub open spec fn has_avif_brand(b: Seq<u8>) -> bool {
    exists|k: int| 0 <= k && 12 + 4 * k <= b.len() && #[trigger] avif_brand_at(b, k)
}

/// The image type that the leading bytes announce: media type and extension.
pub open spec fn spec_detect_image_type(b: Seq<u8>) -> Option<(Seq<char>, Seq<char>)> {
    if bytes_at(b, 0, png_signature()) {
        Some(("image/png"@, "png"@))
    } else if bytes_at(b, 0, jpeg_signature()) {
        Some(("image/jpeg"@, "jpg"@))
    } else if bytes_at(b, 0, gif87_signature()) || bytes_at(b, 0, gif89_signature()) {
        Some(("image/gif"@, "gif"@))
    } else if b.len() >= 12 && bytes_at(b, 0, riff_signature()) && bytes_at(b, 8, webp_tag()) {
        Some(("image/webp"@, "webp"@))
    } else if bytes_at(b, 0, bmp_signature()) {
        Some(("image/bmp"@, "bmp"@))
    } else if b.len() >= 16 && bytes_at(b, 4, ftyp_tag()) && has_avif_brand(b) {
        Some(("image/avif"@, "avif"@))
    } else {
        None
    }
}

pub open spec fn view_pair(p: (&'static str, &'static str)) -> (Seq<char>, Seq<char>) {
    (p.0@, p.1@)
}

fn has_avif_brand_exec(b: &[u8]) -> (r: bool)
    ensures
        r == has_avif_brand(b@),
{
    let avif: [u8; 4] = [0x61, 0x76, 0x69, 0x66];
    let avis: [u8; 4] = [0x61, 0x76, 0x69, 0x73];
    assert(avif@ == avif_brand());
    assert(avis@ == avis_brand());
    let mut off: usize = 8;
    let ghost mut k: int = 0;
    while off <= b.len() && b.len() - off >= 4
        invariant
            off == 8 + 4 * k,
            k >= 0,
            avif@ == avif_brand(),
            avis@ == avis_brand(),
            forall|j: int| 0 <= j < k ==> !#[trigger] avif_brand_at(b@, j),
        decreases b.len() + 4 - off,
    {
        if bytes_at_exec(b, off, avif.as_slice()) || bytes_at_exec(b, off, avis.as_slice()) {
            assert(12 + 4 * k <= b@.len());
            assert(avif_brand_at(b@, k));
            return true;
        }
        off = off + 4;
        proof {
            k = k + 1;
        }
    }
    assert forall|j: int| 0 <= j && 12 + 4 * j <= b@.len() implies !#[trigger] avif_brand_at(
        b@,
        j,
    ) by {
        assert(j < k);
    }
    false
}

/// The image type that the leading bytes announce: media type and extension.
pub fn detect_image_type(bytes: &[u8]) -> (r: Option<(&'static str, &'static str)>)
    ensures
        match r {
            Some(p) => spec_detect_image_type(bytes@) == Some(view_pair(p)),
            None => spec_detect_image_type(bytes@) is None,
        },
{
    let png: [u8; 8] = [0x89, 0x50, 0x4e, 0x47, 0x0d, 0x0a, 0x1a, 0x0a];
    let jpeg: [u8; 3] = [0xff, 0xd8, 0xff];
    let gif87: [u8; 6] = [0x47, 0x49, 0x46, 0x38, 0x37, 0x61];
    let gif89: [u8; 6] = [0x47, 0x49, 0x46, 0x38, 0x39, 0x61];
    let riff: [u8; 4] = [0x52, 0x49, 0x46, 0x46];
    let webp: [u8; 4] = [0x57, 0x45, 0x42, 0x50];
    let bmp: [u8; 2] = [0x42, 0x4d];
    let ftyp: [u8; 4] = [0x66, 0x74, 0x79, 0x70];
    assert(png@ == png_signature());
    assert(jpeg@ == jpeg_signature());
    assert(gif87@ == gif87_signature());
    assert(gif89@ == gif89_signature());
    assert(riff@ == riff_signature());
    assert(webp@ == webp_tag());
    assert(bmp@ == bmp_signature());
    assert(ftyp@ == ftyp_tag());
    if bytes_at_exec(bytes, 0, png.as_slice()) {
        return Some(("image/png", "png"));
    }
    if bytes_at_exec(bytes, 0, jpeg.as_slice()) {
        return Some(("image/jpeg", "jpg"));
    }
    if bytes_at_exec(bytes, 0, gif87.as_slice()) || bytes_at_exec(bytes, 0, gif89.as_slice()) {
        return Some(("image/gif", "gif"));
    }
    if bytes.len() >= 12 && bytes_at_exec(bytes, 0, riff.as_slice()) && bytes_at_exec(
        bytes,
        8,
        webp.as_slice(),
    ) {
        return Some(("image/webp", "webp"));
    }
    if bytes_at_exec(bytes, 0, bmp.as_slice()) {
        return Some(("image/bmp", "bmp"));
    }
    if bytes.len() >= 16 && bytes_at_exec(bytes, 4, ftyp.as_slice()) && has_avif_brand_exec(
        bytes,
    ) {
        return Some(("image/avif", "avif"));
    }
    None
}

/// Why image bytes are refused, or the media type and extension they are stored under.
pub open spec fn spec_validate_image_bytes(bytes: Seq<u8>, file_name: Option<Seq<char>>) -> Result<
    (Seq<char>, Seq<char>),
    Seq<char>,
> {
    if bytes.len() == 0 || bytes.len() > MAX_IMAGE_BYTES {
        Err("The image must be between 1 byte and 50 MiB."@)
    } else {
        match spec_detect_image_type(bytes) {
            None => Err("Use a PNG, JPEG, GIF, WebP, BMP, or AVIF image."@),
            Some(detected) => {
                let expected = match file_name {
                    Some(name) => match spec_extension(name) {
                        Some(e) => spec_image_media_type(e),
                        None => None,
                    },
                    None => None,
                };
                match expected {
                    Some(m) => if m != detected.0 {
                        Err("The image contents do not match the file extension."@)
                    } else {
                        Ok(detected)
                    },
                    None => Ok(detected),
                }
            },
        }
    }
}

pub open spec fn view_opt_str(o: Option<&str>) -> Option<Seq<char>> {
    match o {
        Some(s) => Some(s@),
        None => None,
    }
}

/// Checks that bytes hold a supported image no larger than 50 MiB, and that
/// a given file name's image extension agrees with the contents.
pub fn validate_image_bytes_impl(bytes: &[u8], file_name: Option<&str>) -> (r: Result<
    (&'static str, &'static str),
    String,
>)
    ensures
        match r {
            Ok(p) => spec_validate_image_bytes(bytes@, view_opt_str(file_name)) == Ok::<
                (Seq<char>, Seq<char>),
                Seq<char>,
            >(view_pair(p)),
            Err(e) => spec_validate_image_bytes(bytes@, view_opt_str(file_name)) == Err::<
                (Seq<char>, Seq<char>),
                Seq<char>,
            >(e@),
        },
{
    if bytes.len() == 0 || bytes.len() as u64 > MAX_IMAGE_BYTES {
        return Err(owned("The image must be between 1 byte and 50 MiB."));
    }
    let detected = match detect_image_type(bytes) {
        Some(d) => d,
        None => return Err(owned("Use a PNG, JPEG, GIF, WebP, BMP, or AVIF image.")),
    };
    if let Some(name) = file_name {
        let name_chars = chars_of(name);
        if let Some(e) = extension(&name_chars) {
            if let Some(expected) = image_media_type_for_extension_chars(&e) {
                if !chars_eq(&chars_of(expected), &chars_of(detected.0)) {
                    return Err(owned("The image contents do not match the file extension."));
                }
            }
        }
    }
    Ok(detected)
}

} // verus!
