//! Byte-level encodings: percent-encoded metadata, UTF-8 text, content
//! fingerprints and the hexadecimal IDs derived from them.
#![verifier::loop_isolation(false)]

use crate::text::{chars_of, extend_chars, owned, string_of};
use vstd::prelude::*;
use vstd::utf8::{decode_utf8, encode_utf8, valid_utf8};

verus! {

/// Decodes UTF-8 bytes into a string.
///
/// Trusted: calls `String::from_utf8`, which the documentation says returns
/// the string when the bytes are valid UTF-8 and an error otherwise; validity
/// and decoding are vstd's `valid_utf8` and `decode_utf8`.
#[verifier::external_body]
fn string_from_utf8(bytes: Vec<u8>) -> (r: Option<String>)
    ensures
        r is Some <==> valid_utf8(bytes@),
        r matches Some(s) ==> s@ == decode_utf8(bytes@),
{
    String::from_utf8(bytes).ok()
}

/// The text that UTF-8 bytes hold, or `None` when they are not valid UTF-8.
pub open spec fn spec_utf8_text(bytes: Seq<u8>) -> Option<Seq<char>> {
    if valid_utf8(bytes) {
        Some(decode_utf8(bytes))
    } else {
        None
    }
}

/// The value of an ASCII hexadecimal digit.
pub open spec fn spec_hex_value(b: u8) -> Option<u8> {
    if 0x30 <= b && b <= 0x39 {
        Some((b - 0x30) as u8)
    } else if 0x61 <= b && b <= 0x66 {
        Some((b - 0x61 + 10) as u8)
    } else if 0x41 <= b && b <= 0x46 {
        Some((b - 0x41 + 10) as u8)
    } else {
        None
    }
}

/// The value of an ASCII hexadecimal digit, in either letter case.
pub fn hex_value(value: u8) -> (r: Option<u8>)
    ensures
        r == spec_hex_value(value),
{
    if 0x30 <= value && value <= 0x39 {
        Some(value - 0x30)
    } else if 0x61 <= value && value <= 0x66 {
        Some(value - 0x61 + 10)
    } else if 0x41 <= value && value <= 0x46 {
        Some(value - 0x41 + 10)
    } else {
        None
    }
}

/// The bytes that percent-encoded bytes stand for from index `i` on: `%`
/// and two hexadecimal digits make one byte, anything else stands for itself;
/// `None` when a `%` lacks two digits after it.
pub open spec fn spec_percent_decode_from(src: Seq<u8>, i: int) -> Option<Seq<u8>>
    decreases src.len() - i,
{
    if i < 0 || i >= src.len() {
        Some(Seq::empty())
    } else if src[i] == 0x25 {
        if i + 2 >= src.len() {
            None
        } else {
            match (spec_hex_value(src[i + 1]), spec_hex_value(src[i + 2])) {
                (Some(high), Some(low)) => match spec_percent_decode_from(src, i + 3) {
                    Some(rest) => Some(seq![((high as u8) * 16 + (low as u8)) as u8] + rest),
                    None => None,
                },
                _ => None,
            }
        }
    } else {
        match spec_percent_decode_from(src, i + 1) {
            Some(rest) => Some(seq![src[i]] + rest),
            None => None,
        }
    }
}

/// The text that percent-encoded text stands for, or why it cannot be read.
pub open spec fn spec_percent_decode_utf8(value: Seq<char>) -> Result<Seq<char>, Seq<char>> {
    match spec_percent_decode_from(encode_utf8(value), 0) {
        None => Err("Image metadata contains invalid percent encoding."@),
        Some(bytes) => match spec_utf8_text(bytes) {
            None => Err("Image metadata is not valid UTF-8."@),
            Some(text) => Ok(text),
        },
    }
}

/// Decodes percent-encoded UTF-8 text, such as the metadata sent with image bytes.
pub fn percent_decode_utf8(value: &str) -> (r: Result<String, String>)
    ensures
        crate::vault_paths::view_string_result(r) == spec_percent_decode_utf8(value@),
{
    let source = value.as_bytes_vec();
    let ghost src = source@;
    let mut decoded: Vec<u8> = Vec::new();
    let mut index: usize = 0;
    while index < source.len()
        invariant
            index <= source.len(),
            src == source@,
            match spec_percent_decode_from(src, 0) {
                Some(all) => match spec_percent_decode_from(src, index as int) {
                    Some(rest) => all == decoded@ + rest,
                    None => false,
                },
                None => spec_percent_decode_from(src, index as int) is None,
            },
        decreases source.len() - index,
    {
        if source[index] == 0x25 {
            if source.len() - index <= 2 {
                return Err(owned("Image metadata contains invalid percent encoding."));
            }
            let high = match hex_value(source[index + 1]) {
                Some(h) => h,
                None => return Err(owned("Image metadata contains invalid percent encoding.")),
            };
            let low = match hex_value(source[index + 2]) {
                Some(l) => l,
                None => return Err(owned("Image metadata contains invalid percent encoding.")),
            };
            let ghost before = decoded@;
            decoded.push(high * 16 + low);
            assert(decoded@ == before + seq![((high as u8) * 16 + (low as u8)) as u8]);
            index = index + 3;
        } else {
            let ghost before = decoded@;
            decoded.push(source[index]);
            assert(decoded@ == before + seq![src[index as int]]);
            index = index + 1;
        }
    }
    assert(decoded@ + Seq::<u8>::empty() == decoded@);
    match string_from_utf8(decoded) {
        Some(s) => Ok(s),
        None => Err(owned("Image metadata is not valid UTF-8.")),
    }
}

// ---------------------------------------------------------------------------
// Bounded text reads
// ---------------------------------------------------------------------------

/// Why bytes read as a note are not accepted as text.
#[derive(Debug, Clone, Copy, PartialEq, Eq)]
pub enum TextReadError {
    /// The bytes are not valid UTF-8.
    InvalidData,
}

/// The text of at most `max_bytes` bytes: `None` when there are more bytes
/// than that, the decoded text when they are valid UTF-8.
pub fn read_utf8_file_bounded(bytes: Vec<u8>, max_bytes: u64) -> (r: Result<Option<String>, TextReadError>)
    ensures
        bytes@.len() > max_bytes ==> r == Ok::<Option<String>, TextReadError>(None),
        bytes@.len() <= max_bytes ==> match r {
            Ok(Some(s)) => spec_utf8_text(bytes@) == Some(s@),
            Ok(None) => false,
            Err(_) => spec_utf8_text(bytes@) is None,
        },
{
    if bytes.len() as u64 > max_bytes {
        return Ok(None);
    }
    match string_from_utf8(bytes) {
        Some(s) => Ok(Some(s)),
        None => Err(TextReadError::InvalidData),
    }
}

// ---------------------------------------------------------------------------
// Fingerprints
// ---------------------------------------------------------------------------

/// The FNV-1a offset basis.
pub const FNV_OFFSET_BASIS: u64 = 0xcbf29ce484222325;

/// The FNV-1a prime.
pub const FNV_PRIME: u64 = 0x100000001b3;

/// The 64-bit FNV-1a hash state after `bytes`, starting from `hash`.
pub open spec fn spec_fnv(hash: u64, bytes: Seq<u8>) -> u64
    decreases bytes.len(),
{
    if bytes.len() == 0 {
        hash
    } else {
        vstd::wrapping::u64_specs::wrapping_mul(
            spec_fnv(hash, bytes.drop_last()) ^ (bytes.last() as u64),
            FNV_PRIME,
        )
    }
}

/// Feeds bytes into a 64-bit FNV-1a hash.
pub fn fnv_update(hash: &mut u64, bytes: &[u8])
    ensures
        *final(hash) == spec_fnv(*old(hash), bytes@),
{
    let ghost start = *hash;
    let mut i: usize = 0;
    while i < bytes.len()
        invariant
            i <= bytes.len(),
            *hash == spec_fnv(start, bytes@.take(i as int)),
        decreases bytes.len() - i,
    {
        assert(bytes@.take(i as int + 1).drop_last() == bytes@.take(i as int));
        *hash = (*hash ^ (bytes[i] as u64)).wrapping_mul(FNV_PRIME);
        i = i + 1;
    }
    assert(bytes@.take(bytes.len() as int) == bytes@);
}

/// Hashing in pieces gives the hash of the whole: a file hashed chunk by
/// chunk has the fingerprint of its contents hashed at once.
pub proof fn lemma_fnv_concat(hash: u64, a: Seq<u8>, b: Seq<u8>)
    ensures
        spec_fnv(spec_fnv(hash, a), b) == spec_fnv(hash, a + b),
    decreases b.len(),
{
    if b.len() == 0 {
        assert(a + b == a);
    } else {
        lemma_fnv_concat(hash, a, b.drop_last());
        assert((a + b).drop_last() == a + b.drop_last());
    }
}

/// The length and FNV-1a hash of a file's contents.
#[derive(Debug, Clone, Copy, PartialEq, Eq, Structural, Hash)]
pub struct FileFingerprint {
    pub length: u64,
    pub hash: u64,
}

/// The fingerprint of bytes: their length and their FNV-1a hash.
pub fn fingerprint_bytes(bytes: &[u8]) -> (r: FileFingerprint)
    ensures
        r.length == bytes@.len(),
        r.hash == spec_fnv(FNV_OFFSET_BASIS, bytes@),
{
    let mut hash = FNV_OFFSET_BASIS;
    fnv_update(&mut hash, bytes);
    FileFingerprint { length: bytes.len() as u64, hash }
}

/// A fingerprint being built from the chunks of a file as they are read.
pub struct StreamingFingerprint {
    pub length: u64,
    pub hash: u64,
    pub contents: Ghost<Seq<u8>>,
}

impl StreamingFingerprint {
    pub open spec fn wf(&self) -> bool {
        self.length == self.contents@.len() && self.hash == spec_fnv(
            FNV_OFFSET_BASIS,
            self.contents@,
        )
    }

    /// A fingerprint of nothing read yet.
    pub fn new() -> (r: StreamingFingerprint)
        ensures
            r.wf(),
            r.contents@ == Seq::<u8>::empty(),
    {
        StreamingFingerprint { length: 0, hash: FNV_OFFSET_BASIS, contents: Ghost(Seq::empty()) }
    }

    /// Adds the next chunk; refused (`false`, nothing changed) when the total
    /// would pass `limit` bytes.
    pub fn update(&mut self, chunk: &[u8], limit: u64) -> (accepted: bool)
        requires
            old(self).wf(),
        ensures
            final(self).wf(),
            accepted == (old(self).length + chunk@.len() <= limit),
            accepted ==> final(self).contents@ == old(self).contents@ + chunk@,
            !accepted ==> *final(self) == *old(self),
    {
        if chunk.len() as u64 > limit || self.length > limit - chunk.len() as u64 {
            return false;
        }
        proof {
            lemma_fnv_concat(FNV_OFFSET_BASIS, self.contents@, chunk@);
        }
        fnv_update(&mut self.hash, chunk);
        self.length = self.length + chunk.len() as u64;
        self.contents = Ghost(self.contents@ + chunk@);
        true
    }

    /// The fingerprint of everything read.
    pub fn finish(&self) -> (r: FileFingerprint)
        requires
            self.wf(),
        ensures
            r.length == self.contents@.len(),
            r.hash == spec_fnv(FNV_OFFSET_BASIS, self.contents@),
    {
        FileFingerprint { length: self.length, hash: self.hash }
    }
}

// ---------------------------------------------------------------------------
// Stable IDs
// ---------------------------------------------------------------------------

pub open spec fn spec_hex_digit(n: u64) -> char {
    if n < 10 {
        ((n + 0x30) as u32) as char
    } else {
        ((n - 10 + 0x61) as u32) as char
    }
}

/// `h` as 16 lower-case hexadecimal digits, most significant first.
pub open spec fn spec_hex16(h: u64) -> Seq<char> {
    Seq::new(16, |k: int| spec_hex_digit((h >> (4 * (15 - k)) as u64) & 0xf))
}

fn hex_digit(n: u64) -> (c: char)
    requires
        n < 16,
    ensures
        c == spec_hex_digit(n),
{
    let u = if n < 10 {
        (n + 0x30) as u32
    } else {
        (n - 10 + 0x61) as u32
    };
    let chars = ['0', '1', '2', '3', '4', '5', '6', '7', '8', '9', 'a', 'b', 'c', 'd', 'e', 'f'];
    let c = chars[n as usize];
    assert(c == (u as char)) by {
        assert(chars@[n as int] == (u as char));
    }
    c
}

/// `h` as 16 lower-case hexadecimal digits, most significant first.
pub fn hex16(h: u64) -> (r: Vec<char>)
    ensures
        r@ == spec_hex16(h),
{
    let mut r: Vec<char> = Vec::new();
    let mut k: u64 = 0;
    while k < 16
        invariant
            k <= 16,
            r@.len() == k,
            forall|j: int| 0 <= j < k ==> r@[j] == spec_hex16(h)[j],
        decreases 16 - k,
    {
        let shift: u64 = 4 * (15 - k);
        let nibble = (h >> shift) & 0xf;
        assert(nibble < 16) by (bit_vector)
            requires
                nibble == (h >> shift) & 0xf,
        ;
        r.push(hex_digit(nibble));
        k = k + 1;
    }
    assert(r@ =~= spec_hex16(h));
    r
}

/// `n` in decimal.
pub open spec fn spec_decimal(n: nat) -> Seq<char>
    decreases n,
{
    if n < 10 {
        seq![((n + 0x30) as u32) as char]
    } else {
        spec_decimal(n / 10).push((((n % 10) + 0x30) as u32) as char)
    }
}

fn digit_char(d: u64) -> (c: char)
    requires
        d < 10,
    ensures
        c == (((d + 0x30) as u32) as char),
{
    let chars = ['0', '1', '2', '3', '4', '5', '6', '7', '8', '9'];
    let c = chars[d as usize];
    assert(chars@[d as int] == (((d + 0x30) as u32) as char));
    c
}

/// `n` in decimal.
pub fn decimal(n: u64) -> (r: Vec<char>)
    ensures
        r@ == spec_decimal(n as nat),
    decreases n,
{
    if n < 10 {
        let mut r: Vec<char> = Vec::new();
        r.push(digit_char(n));
        r
    } else {
        let mut r = decimal(n / 10);
        r.push(digit_char(n % 10));
        r
    }
}

/// The `index`-th name tried for a new ID: the base itself first, then the
/// base with `-2`, `-3`, and so on.
pub open spec fn spec_id_candidate(base: Seq<char>, index: nat) -> Seq<char> {
    if index <= 1 {
        base
    } else {
        base + seq!['-'] + spec_decimal(index)
    }
}

pub open spec fn spec_id_base(prefix: Seq<char>, value: Seq<char>) -> Seq<char> {
    prefix + seq!['-'] + spec_hex16(spec_fnv(FNV_OFFSET_BASIS, encode_utf8(value)))
}

fn id_candidate(base: &[char], index: u64) -> (r: Vec<char>)
    ensures
        r@ == spec_id_candidate(base@, index as nat),
{
    let mut r = crate::text::sub_chars(base, 0, base.len());
    assert(base@.subrange(0, base@.len() as int) == base@);
    if index > 1 {
        r.push('-');
        extend_chars(&mut r, &decimal(index));
    }
    r
}

fn contains_id(used: &Vec<String>, id: &[char]) -> (r: bool)
    ensures
        r == crate::frontmatter::strings_view(used@).contains(id@),
{
    let mut i: usize = 0;
    while i < used.len()
        invariant
            i <= used.len(),
            forall|j: int| 0 <= j < i ==> crate::frontmatter::strings_view(used@)[j] != id@,
        decreases used.len() - i,
    {
        if crate::text::chars_eq(&chars_of(used[i].as_str()), id) {
            assert(crate::frontmatter::strings_view(used@)[i as int] == id@);
            return true;
        }
        i = i + 1;
    }
    false
}

/// A stable ID for a new record: `prefix`, `-` and the FNV-1a hash of `value`
/// in 16 hexadecimal digits, with `-2` up to `-9999` appended when that is
/// taken; the ID chosen is recorded in `used`. When all are taken, the base
/// with `-` and `fallback_suffix` is returned and not recorded.
pub fn fresh_id(prefix: &str, value: &str, used: &mut Vec<String>, fallback_suffix: u64) -> (r: String)
    ensures
        ({
            let base = spec_id_base(prefix@, value@);
            let taken = crate::frontmatter::strings_view(old(used)@);
            ||| exists|k: nat|
                {
                    &&& 1 <= k <= 9999
                    &&& r@ == #[trigger] spec_id_candidate(base, k)
                    &&& !taken.contains(spec_id_candidate(base, k))
                    &&& forall|j: nat| 1 <= j < k ==> taken.contains(#[trigger] spec_id_candidate(base, j))
                    &&& crate::frontmatter::strings_view(final(used)@) == taken.push(r@)
                }
            ||| {
                &&& forall|k: nat| 1 <= k <= 9999 ==> taken.contains(#[trigger] spec_id_candidate(base, k))
                &&& r@ == base + seq!['-'] + spec_decimal(fallback_suffix as nat)
                &&& final(used)@ == old(used)@
            }
        }),
{
    let mut hash = FNV_OFFSET_BASIS;
    let bytes = value.as_bytes_vec();
    fnv_update(&mut hash, &bytes);
    let mut base = chars_of(prefix);
    base.push('-');
    extend_chars(&mut base, &hex16(hash));
    let ghost b = base@;
    let ghost taken = crate::frontmatter::strings_view(used@);
    assert(b == spec_id_base(prefix@, value@));
    let mut index: u64 = 1;
    while index <= 9999
        invariant
            1 <= index <= 10000,
            base@ == b,
            used@ == old(used)@,
            taken == crate::frontmatter::strings_view(used@),
            forall|j: nat| 1 <= j < index ==> taken.contains(#[trigger] spec_id_candidate(b, j)),
        decreases 10000 - index,
    {
        let candidate = id_candidate(&base, index);
        if !contains_id(used, &candidate) {
            let s = string_of(&candidate);
            used.push(string_of(&candidate));
            assert(crate::frontmatter::strings_view(used@) == taken.push(s@));
            assert(s@ == spec_id_candidate(b, index as nat));
            assert(!taken.contains(spec_id_candidate(b, index as nat)));
            return s;
        }
        index = index + 1;
    }
    assert forall|k: nat| 1 <= k <= 9999 implies taken.contains(#[trigger] spec_id_candidate(b, k)) by {
        assert(k < index);
    }
    let mut r = base;
    r.push('-');
    extend_chars(&mut r, &decimal(fallback_suffix));
    let s = string_of(&r);
    assert(s@ == b + seq!['-'] + spec_decimal(fallback_suffix as nat));
    s
}


// ---------------------------------------------------------------------------
// What generated IDs are made of
// ---------------------------------------------------------------------------

/// Ten to the power `k`.
pub open spec fn ten_pow(k: nat) -> nat
    decreases k,
{
    if k == 0 {
        1
    } else {
        10 * ten_pow((k - 1) as nat)
    }
}

/// Decimal digits only, and no more of them than the powers of ten allow.
pub proof fn lemma_decimal_digits(n: nat, k: nat)
    requires
        k >= 1,
        n < ten_pow(k),
    ensures
        spec_decimal(n).len() >= 1,
        spec_decimal(n).len() <= k,
        forall|i: int| 0 <= i < spec_decimal(n).len() ==> '0' <= #[trigger] spec_decimal(n)[i] && spec_decimal(n)[i] <= '9',
    decreases n,
{
    if n >= 10 {
        if k == 1 {
            assert(ten_pow(1) == 10) by {
                reveal_with_fuel(ten_pow, 2);
            }
        }
        let t = ten_pow((k - 1) as nat);
        assert(n / 10 < t) by (nonlinear_arith)
            requires
                n < 10 * t,
        ;
        lemma_decimal_digits(n / 10, (k - 1) as nat);
        let d = spec_decimal(n);
        assert(d == spec_decimal(n / 10).push((((n % 10) + 0x30) as u32) as char));
        assert forall|i: int| 0 <= i < d.len() implies '0' <= #[trigger] d[i] && d[i] <= '9' by {
            if i < d.len() - 1 {
                assert(d[i] == spec_decimal(n / 10)[i]);
            }
        }
    }
}

/// Characters below 0x80 take one byte each.
pub proof fn lemma_utf8_len_ascii(s: Seq<char>)
    requires
        forall|i: int| 0 <= i < s.len() ==> (#[trigger] s[i] as u32) < 0x80,
    ensures
        crate::text::spec_utf8_len(s) == s.len(),
    decreases s.len(),
{
    if s.len() > 0 {
        assert forall|i: int| 0 <= i < s.drop_last().len() implies (#[trigger] s.drop_last()[i] as u32) < 0x80 by {
            assert(s.drop_last()[i] == s[i]);
        }
        lemma_utf8_len_ascii(s.drop_last());
        assert(s[s.len() - 1] == s.last());
    }
}

/// The hexadecimal part of a generated ID is lower-case hex digits.
pub proof fn lemma_hex16_digits(h: u64)
    ensures
        spec_hex16(h).len() == 16,
        forall|i: int| 0 <= i < 16 ==> {
            let c = #[trigger] spec_hex16(h)[i];
            ('0' <= c && c <= '9') || ('a' <= c && c <= 'f')
        },
{
    assert forall|i: int| 0 <= i < 16 implies {
        let c = #[trigger] spec_hex16(h)[i];
        ('0' <= c && c <= '9') || ('a' <= c && c <= 'f')
    } by {
        let s = (4 * (15 - i)) as u64;
        let n = (h >> s) & 0xf;
        assert(n < 16) by (bit_vector)
            requires
                n == (h >> s) & 0xf,
        ;
        assert(spec_hex16(h)[i] == spec_hex_digit(n));
    }
}


/// Different numbers are written differently.
pub proof fn lemma_decimal_injective(a: nat, b: nat)
    requires
        spec_decimal(a) == spec_decimal(b),
    ensures
        a == b,
    decreases a,
{
    if a < 10 && b < 10 {
        let ca = ((a + 0x30) as u32) as char;
        let cb = ((b + 0x30) as u32) as char;
        assert(spec_decimal(a)[0] == ca);
        assert(spec_decimal(b)[0] == cb);
        assert(ca as u32 == (a + 0x30) as u32);
        assert(cb as u32 == (b + 0x30) as u32);
    } else if a >= 10 && b >= 10 {
        let da = spec_decimal(a);
        let db = spec_decimal(b);
        assert(da.drop_last() == spec_decimal(a / 10));
        assert(db.drop_last() == spec_decimal(b / 10));
        lemma_decimal_injective(a / 10, b / 10);
        let la = (((a % 10) + 0x30) as u32) as char;
        let lb = (((b % 10) + 0x30) as u32) as char;
        assert(da.last() == la);
        assert(db.last() == lb);
        assert(la as u32 == ((a % 10) + 0x30) as u32);
        assert(lb as u32 == ((b % 10) + 0x30) as u32);
        assert(a == 10 * (a / 10) + a % 10);
        assert(b == 10 * (b / 10) + b % 10);
    } else if a < 10 {
        lemma_decimal_nonempty(b / 10);
        assert(spec_decimal(b).len() >= 2);
    } else {
        lemma_decimal_nonempty(a / 10);
        assert(spec_decimal(a).len() >= 2);
    }
}

/// Every number is written with at least one digit.
pub proof fn lemma_decimal_nonempty(n: nat)
    ensures
        spec_decimal(n).len() >= 1,
    decreases n,
{
    if n >= 10 {
        lemma_decimal_nonempty(n / 10);
    }
}


/// The names tried for a new ID are all different, so no name is tried twice.
pub proof fn lemma_id_candidates_differ(base: Seq<char>, i: nat, j: nat)
    requires
        1 <= i,
        1 <= j,
        i != j,
    ensures
        spec_id_candidate(base, i) != spec_id_candidate(base, j),
{
    if i > 1 && j > 1 {
        if spec_id_candidate(base, i) == spec_id_candidate(base, j) {
            crate::text::lemma_middle_injective(base + seq!['-'], spec_decimal(i), spec_decimal(j), Seq::empty());
            lemma_decimal_injective(i, j);
        }
    } else if i > 1 {
        lemma_decimal_nonempty(i);
        assert(spec_id_candidate(base, i).len() > spec_id_candidate(base, j).len());
    } else {
        lemma_decimal_nonempty(j);
        assert(spec_id_candidate(base, j).len() > spec_id_candidate(base, i).len());
    }
}

} // verus!
