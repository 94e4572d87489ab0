//! Clipboard payloads. A device-independent bitmap (DIB, the clipboard's
//! `CF_DIB` payload) becomes a complete BMP file by putting the 14-byte BMP
//! file header in front of it; text on the clipboard may name a file to open;
//! opening the clipboard is retried a bounded number of times.
use vstd::prelude::*;
use vstd::arithmetic::power2::{pow2, lemma2_to64, lemma_pow2_strictly_increases};
use vstd::bits::lemma_u64_shl_is_mul;

verus! {

/// Size of the BMP file header that precedes the DIB in a BMP file.
pub const BMP_FILE_HEADER_SIZE: usize = 14;

/// Size of the smallest DIB header this library accepts (`BITMAPINFOHEADER`).
pub const BITMAPINFOHEADER_SIZE: usize = 40;

/// Why a DIB could not be framed as a BMP file.
#[derive(Debug, Clone, Copy, PartialEq, Eq, Structural)]
pub enum DibError {
    /// Fewer bytes than a `BITMAPINFOHEADER`.
    TooSmall,
    /// The header declares a size below a `BITMAPINFOHEADER`, or beyond the data.
    UnsupportedHeader,
}

/// Little-endian 16-bit value at `i`.
pub open spec fn le_u16_at(d: Seq<u8>, i: int) -> int {
    d[i] as int + 256 * d[i + 1] as int
}

/// Little-endian 32-bit value at `i`.
pub open spec fn le_u32_at(d: Seq<u8>, i: int) -> int {
    d[i] as int + 256 * d[i + 1] as int + 65536 * d[i + 2] as int + 16777216 * d[i + 3] as int
}

/// The four little-endian bytes of `v` reduced modulo 2^32.
pub open spec fn le_bytes(v: int) -> Seq<u8> {
    let w = v % 0x1_0000_0000;
    seq![(w % 256) as u8, ((w / 256) % 256) as u8, ((w / 65536) % 256) as u8, (w / 16777216) as u8]
}

/// Size of the DIB header, as the DIB declares it.
pub open spec fn dib_header_size(d: Seq<u8>) -> int {
    le_u32_at(d, 0)
}

/// Number of palette entries that follow the DIB header: `biClrUsed` where it
/// is nonzero, else a full palette for eight or fewer bits per pixel, else none.
pub open spec fn dib_color_count(d: Seq<u8>) -> int {
    let clr_used = le_u32_at(d, 32);
    let bit_count = le_u16_at(d, 14);
    if clr_used != 0 {
        clr_used
    } else if bit_count <= 8 {
        pow2(bit_count as nat) as int
    } else {
        0
    }
}

/// Whether a DIB is one that can be framed.
pub open spec fn dib_supported(d: Seq<u8>) -> bool {
    d.len() >= 40 && dib_header_size(d) >= 40 && d.len() >= dib_header_size(d)
}

/// The BMP file made of a supported DIB: the signature `BM`, the file size,
/// four reserved zero bytes, the offset of the pixel data, then the DIB.
pub open spec fn bmp_file(d: Seq<u8>) -> Seq<u8> {
    seq![0x42u8, 0x4du8] + le_bytes(14 + d.len() as int) + le_bytes(0) + le_bytes(
        14 + dib_header_size(d) + 4 * dib_color_count(d),
    ) + d
}

fn read_le_u16(d: &[u8], i: usize) -> (v: u64)
    requires
        i + 2 <= d@.len(),
    ensures
        v == le_u16_at(d@, i as int),
        v < 65536,
{
    d[i] as u64 + 256 * (d[i + 1] as u64)
}

fn read_le_u32(d: &[u8], i: usize) -> (v: u64)
    requires
        i + 4 <= d@.len(),
    ensures
        v == le_u32_at(d@, i as int),
        v < 0x1_0000_0000,
{
    d[i] as u64 + 256 * (d[i + 1] as u64) + 65536 * (d[i + 2] as u64) + 16777216 * (d[i + 3] as u64)
}

fn push_le_u32(out: &mut Vec<u8>, v: u64)
    ensures
        final(out)@ == old(out)@ + le_bytes(v as int),
{
    let w = v % 0x1_0000_0000;
    out.push((w % 256) as u8);
    out.push(((w / 256) % 256) as u8);
    out.push(((w / 65536) % 256) as u8);
    out.push((w / 16777216) as u8);
    assert(final(out)@ =~= old(out)@ + le_bytes(v as int));
}

/// Turns the clipboard's DIB payload into a complete BMP file.
pub fn dib_to_bmp(dib_data: &[u8]) -> (r: Result<Vec<u8>, DibError>)
    requires
        dib_data@.len() + 14 <= usize::MAX,
    ensures
        dib_data@.len() < 40 ==> r == Err::<Vec<u8>, DibError>(DibError::TooSmall),
        dib_data@.len() >= 40 && !dib_supported(dib_data@) ==> r == Err::<Vec<u8>, DibError>(
            DibError::UnsupportedHeader,
        ),
        dib_supported(dib_data@) ==> r is Ok && r->Ok_0@ == bmp_file(dib_data@),
{
    let len = dib_data.len();
    if len < BITMAPINFOHEADER_SIZE {
        return Err(DibError::TooSmall);
    }
    let header_size = read_le_u32(dib_data, 0);
    if header_size < BITMAPINFOHEADER_SIZE as u64 || (len as u64) < header_size {
        return Err(DibError::UnsupportedHeader);
    }
    let bit_count = read_le_u16(dib_data, 14);
    let clr_used = read_le_u32(dib_data, 32);
    let color_count: u64 = if clr_used != 0 {
        clr_used
    } else if bit_count <= 8 {
        proof {
            lemma2_to64();
            if bit_count < 8 {
                lemma_pow2_strictly_increases(bit_count as nat, 8);
            }
            lemma_u64_shl_is_mul(1, bit_count);
        }
        1u64 << bit_count
    } else {
        0
    };
    let off_bits: u64 = 14 + header_size + color_count * 4;
    let file_size: u64 = 14 + len as u64;
    let mut bmp_data: Vec<u8> = Vec::new();
    bmp_data.push(0x42);
    bmp_data.push(0x4d);
    push_le_u32(&mut bmp_data, file_size);
    push_le_u32(&mut bmp_data, 0);
    push_le_u32(&mut bmp_data, off_bits);
    let mut i: usize = 0;
    while i < len
        invariant
            i <= len == dib_data@.len(),
            bmp_data@ == seq![0x42u8, 0x4du8] + le_bytes(file_size as int) + le_bytes(0)
                + le_bytes(off_bits as int) + dib_data@.subrange(0, i as int),
        decreases len - i,
    {
        bmp_data.push(dib_data[i]);
        i = i + 1;
        assert(dib_data@.subrange(0, i as int) =~= dib_data@.subrange(0, i - 1).push(dib_data@[i - 1]));
    }
    assert(dib_data@.subrange(0, len as int) =~= dib_data@);
    Ok(bmp_data)
}

/// Opening the clipboard is retried this many times after the first failure.
pub const CLIPBOARD_OPEN_RETRIES: u32 = 50;

/// After a failed attempt to open the clipboard with `attempts_left` retries
/// left: the retries left for the next attempt, or `None` to give up.
pub fn retry_clipboard_open(attempts_left: u32) -> (r: Option<u32>)
    ensures
        attempts_left == 0 ==> r is None,
        attempts_left > 0 ==> r == Some((attempts_left - 1) as u32),
{
    if attempts_left == 0 {
        None
    } else {
        Some(attempts_left - 1)
    }
}

/// The characters of Unicode's `White_Space` property.
pub open spec fn is_white_space(c: char) -> bool {
    ('\t' <= c && c <= '\r') || c == ' ' || c == '\u{85}' || c == '\u{a0}' || c == '\u{1680}' || (
    '\u{2000}' <= c && c <= '\u{200a}') || c == '\u{2028}' || c == '\u{2029}' || c == '\u{202f}'
        || c == '\u{205f}' || c == '\u{3000}'
}

/// The characters that a trim removes: white space, or double quotes.
pub open spec fn strips(c: char, quotes: bool) -> bool {
    if quotes {
        c == '"'
    } else {
        is_white_space(c)
    }
}

/// How many characters at the front of `s` a trim removes.
pub open spec fn lead(s: Seq<char>, quotes: bool) -> int
    decreases s.len(),
{
    if s.len() == 0 {
        0
    } else if strips(s[0], quotes) {
        1 + lead(s.drop_first(), quotes)
    } else {
        0
    }
}

/// How many characters at the back of `s` a trim removes.
pub open spec fn trail(s: Seq<char>, quotes: bool) -> int
    decreases s.len(),
{
    if s.len() == 0 {
        0
    } else if strips(s.last(), quotes) {
        1 + trail(s.drop_last(), quotes)
    } else {
        0
    }
}

/// `s` without the white space (or the double quotes) at either end.
pub open spec fn trimmed(s: Seq<char>, quotes: bool) -> Seq<char> {
    if lead(s, quotes) == s.len() {
        Seq::empty()
    } else {
        s.subrange(lead(s, quotes), s.len() - trail(s, quotes))
    }
}

/// Index of the first line feed in `s`, or its length.
pub open spec fn line_end(s: Seq<char>) -> int
    decreases s.len(),
{
    if s.len() == 0 {
        0
    } else if line_end(s.drop_last()) < s.len() - 1 {
        line_end(s.drop_last())
    } else if s.last() == '\n' {
        s.len() - 1
    } else {
        s.len() as int
    }
}

/// The first line of `s`: up to its first line feed, without a carriage
/// return right before that line feed.
pub open spec fn first_line(s: Seq<char>) -> Seq<char> {
    let k = line_end(s);
    if k < s.len() && k > 0 && s[k - 1] == '\r' {
        s.subrange(0, k - 1)
    } else {
        s.subrange(0, k)
    }
}

/// The path that clipboard text names: the first line of the trimmed text,
/// trimmed again and without surrounding double quotes; none where that is empty.
pub open spec fn text_path(t: Seq<char>) -> Option<Seq<char>> {
    let p = trimmed(trimmed(first_line(trimmed(t, false)), false), true);
    if p.len() == 0 {
        None
    } else {
        Some(p)
    }
}

fn strips_char(c: char, quotes: bool) -> (r: bool)
    ensures
        r == strips(c, quotes),
{
    if quotes {
        c == '"'
    } else {
        ('\t' <= c && c <= '\r') || c == ' ' || c == '\u{85}' || c == '\u{a0}' || c == '\u{1680}'
            || ('\u{2000}' <= c && c <= '\u{200a}') || c == '\u{2028}' || c == '\u{2029}' || c
            == '\u{202f}' || c == '\u{205f}' || c == '\u{3000}'
    }
}

/// `s` without the white space (or the double quotes) at either end.
fn trim_by(s: &str, quotes: bool) -> (r: &str)
    ensures
        r@ == trimmed(s@, quotes),
{
    let n = s.unicode_len();
    let mut a: usize = 0;
    assert(s@.subrange(0, n as int) =~= s@);
    while a < n && strips_char(s.get_char(a), quotes)
        invariant
            n == s@.len(),
            a <= n,
            a + lead(s@.subrange(a as int, n as int), quotes) == lead(s@, quotes),
        decreases n - a,
    {
        assert(s@.subrange(a as int, n as int).drop_first() =~= s@.subrange(a + 1, n as int));
        a = a + 1;
    }
    proof {
        if a < n {
            assert(s@.subrange(a as int, n as int)[0] == s@[a as int]);
        }
    }
    if a == n {
        return s.substring_char(0, 0);
    }
    let mut b: usize = n;
    while b > a && strips_char(s.get_char(b - 1), quotes)
        invariant
            n == s@.len(),
            a < n,
            a < b <= n,
            n - b + trail(s@.subrange(0, b as int), quotes) == trail(s@, quotes),
            lead(s@, quotes) == a,
            !strips(s@[a as int], quotes),
        decreases b,
    {
        assert(s@.subrange(0, b as int).drop_last() =~= s@.subrange(0, b - 1));
        b = b - 1;
    }
    assert(s@.subrange(0, b as int).last() == s@[b - 1]);
    let r = s.substring_char(a, b);
    r
}

/// The first line of `s`.
fn first_line_of(s: &str) -> (r: &str)
    ensures
        r@ == first_line(s@),
{
    let n = s.unicode_len();
    let mut k: usize = 0;
    while k < n && s.get_char(k) != '\n'
        invariant
            n == s@.len(),
            k <= n,
            line_end(s@.subrange(0, k as int)) == k,
        decreases n - k,
    {
        assert(s@.subrange(0, k + 1).drop_last() =~= s@.subrange(0, k as int));
        k = k + 1;
    }
    proof {
        lemma_line_end_prefix(s@, k as int);
    }
    if k < n && k > 0 && s.get_char(k - 1) == '\r' {
        s.substring_char(0, k - 1)
    } else {
        s.substring_char(0, k)
    }
}

/// A prefix that ends before the first line feed decides where the first line ends.
proof fn lemma_line_end_prefix(s: Seq<char>, k: int)
    requires
        0 <= k <= s.len(),
        line_end(s.subrange(0, k)) == k,
        k < s.len() ==> s[k] == '\n',
    ensures
        line_end(s) == k,
    decreases s.len() - k,
{
    if k == s.len() {
        assert(s.subrange(0, k) =~= s);
    } else {
        lemma_line_end_prefix_found(s, k, s.len() as int);
        assert(s.subrange(0, s.len() as int) =~= s);
    }
}

proof fn lemma_line_end_prefix_found(s: Seq<char>, k: int, m: int)
    requires
        0 <= k < m <= s.len(),
        line_end(s.subrange(0, k)) == k,
        s[k] == '\n',
    ensures
        line_end(s.subrange(0, m)) == k,
    decreases m - k,
{
    if m == k + 1 {
        assert(s.subrange(0, m).drop_last() =~= s.subrange(0, k));
    } else {
        lemma_line_end_prefix_found(s, k, m - 1);
        assert(s.subrange(0, m).drop_last() =~= s.subrange(0, m - 1));
    }
    if m == s.len() {
        assert(s.subrange(0, m) =~= s);
    }
}

/// The path that text on the clipboard names, if any; whether a file is
/// there is for the caller to find out.
pub fn clipboard_text_path(text: &str) -> (r: Option<String>)
    ensures
        r is None <==> text_path(text@) is None,
        r is Some ==> r->Some_0@ == text_path(text@)->Some_0,
{
    let t = trim_by(text, false);
    let line = first_line_of(t);
    let p = trim_by(trim_by(line, false), true);
    if p.unicode_len() == 0 {
        None
    } else {
        Some(p.to_owned())
    }
}

} // verus!
