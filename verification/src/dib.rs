//! Device-independent bitmaps (CF_DIB, CF_DIBV5) turned into BMP files
//! and inline data URLs.

use vstd::prelude::*;
use crate::base64_text::{base64_encode, base64_len, base64_standard};
use crate::decode::{binary_content, hex_block, le_u16_at, le_u32_at, read_le_u32};
use crate::parser::{Content, ContentKind};

verus! {

/// The size of a BITMAPINFOHEADER, the smallest header a DIB can have.
pub const INFO_HEADER_LEN: usize = 40;

/// The absolute value of a 32-bit two's complement number, given by its
/// unsigned bits (`i32::unsigned_abs`).
pub open spec fn unsigned_abs_bits(x: nat) -> nat {
    if x < 0x8000_0000 {
        x
    } else {
        (0x1_0000_0000 - x) as nat
    }
}

/// Two to the power `b`.
pub open spec fn pow2(b: nat) -> nat
    decreases b,
{
    if b == 0 {
        1
    } else {
        2 * pow2((b - 1) as nat)
    }
}

/// The number of RGBQUAD entries in the colour table: `biClrUsed` when it is
/// set, else `2^biBitCount` for at most 8 bits per pixel, else none.
pub open spec fn color_entries(bit_count: nat, clr_used: nat) -> nat {
    if clr_used > 0 {
        clr_used
    } else if bit_count <= 8 {
        pow2(bit_count)
    } else {
        0
    }
}

/// The four little-endian bytes of the low 32 bits of `v`.
#[verifier::opaque]
pub open spec fn le_u32_bytes(v: nat) -> Seq<u8> {
    seq![
        (v % 256) as u8,
        ((v / 256) % 256) as u8,
        ((v / 65536) % 256) as u8,
        ((v / 16777216) % 256) as u8,
    ]
}

/// The bytes of colour masks that follow a BITMAPINFOHEADER: three DWORDs
/// for BI_BITFIELDS, four for BI_ALPHABITFIELDS. Larger headers hold their
/// masks inside the header.
pub open spec fn mask_bytes(d: Seq<u8>) -> nat {
    if le_u32_at(d, 0) == 40 && le_u32_at(d, 16) == 3 {
        12
    } else if le_u32_at(d, 0) == 40 && le_u32_at(d, 16) == 6 {
        16
    } else {
        0
    }
}

/// `bfOffBits`: where the pixels start in the BMP file (after both headers,
/// the colour masks and the colour table), modulo 2^32.
pub open spec fn pixel_offset(d: Seq<u8>) -> nat {
    (14 + le_u32_at(d, 0) + mask_bytes(d) + 4 * color_entries(le_u16_at(d, 14), le_u32_at(d, 32)))
        % 0x1_0000_0000
}

/// The BMP file for a DIB: "BM", the file size modulo 2^32, four reserved
/// zero bytes, the pixel offset, then the DIB itself.
pub open spec fn bmp_file(d: Seq<u8>) -> Seq<u8> {
    seq![66u8, 77u8] + le_u32_bytes(((14 + d.len()) % 0x1_0000_0000) as nat) + seq![
        0u8,
        0u8,
        0u8,
        0u8,
    ] + le_u32_bytes(pixel_offset(d)) + d
}

/// The prefix of a BMP data URL.
pub open spec fn bmp_url_prefix() -> Seq<char> {
    "data:image/bmp;base64,"@
}

/// A DIB: an image with the header's width and height (their absolute
/// values) and the BMP file as a data URL; a dump when the data is shorter
/// than a BITMAPINFOHEADER or than the header size it declares.
pub open spec fn dib_content(d: Seq<u8>) -> Content {
    if d.len() < 40 || d.len() < le_u32_at(d, 0) {
        binary_content(d)
    } else {
        Content::Image {
            width: unsigned_abs_bits(le_u32_at(d, 4)) as u32,
            height: unsigned_abs_bits(le_u32_at(d, 8)) as u32,
            data_url: bmp_url_prefix() + base64_encode(bmp_file(d)),
        }
    }
}

/// Whether the data URL of a DIB of `n` bytes fits in an allocation.
pub open spec fn dib_url_fits(n: nat) -> bool {
    base64_len(n + 14) + 22 <= isize::MAX
}

/// Whether a DIB becomes an image, for which a data URL is built, rather
/// than a dump.
pub open spec fn dib_makes_image(d: Seq<u8>) -> bool {
    d.len() >= 40 && d.len() >= le_u32_at(d, 0)
}

/// Whether a DIB can be decoded within the machine's limits: when it becomes
/// an image, its data URL fits in an allocation.
pub open spec fn dib_decodable(d: Seq<u8>) -> bool {
    dib_makes_image(d) ==> dib_url_fits(d.len())
}

/// Tests [`dib_decodable`] on the bytes of a DIB.
pub fn dib_fits_in_memory(data: &[u8]) -> (r: bool)
    ensures
        r == dib_decodable(data@),
{
    if data.len() < INFO_HEADER_LEN || (data.len() as u64) < read_le_u32(data, 0) {
        return true;
    }
    let limit: u128 = isize::MAX as u128;
    4 * ((data.len() as u128 + 16) / 3) + 22 <= limit
}

/// `2^b` for `b <= 8`.
fn small_pow2(b: u16) -> (r: u64)
    requires
        b <= 8,
    ensures
        r == pow2(b as nat),
        r <= 256,
{
    proof {
        reveal_with_fuel(pow2, 9);
    }
    if b == 0 {
        1
    } else if b == 1 {
        2
    } else if b == 2 {
        4
    } else if b == 3 {
        8
    } else if b == 4 {
        16
    } else if b == 5 {
        32
    } else if b == 6 {
        64
    } else if b == 7 {
        128
    } else {
        256
    }
}

/// Appends the four little-endian bytes of `v`.
fn push_le_u32(out: &mut Vec<u8>, v: u64)
    requires
        v < 0x1_0000_0000,
    ensures
        final(out)@ == old(out)@ + le_u32_bytes(v as nat),
        final(out)@.len() == old(out)@.len() + 4,
{
    reveal(le_u32_bytes);
    let ghost start = out@;
    out.push((v % 256) as u8);
    out.push(((v / 256) % 256) as u8);
    out.push(((v / 65536) % 256) as u8);
    out.push(((v / 16777216) % 256) as u8);
    assert(out@ =~= start + le_u32_bytes(v as nat));
}

/// `bfOffBits` for a DIB with a complete BITMAPINFOHEADER.
fn pixel_offset_of(data: &[u8]) -> (off: u64)
    requires
        data@.len() >= 40,
    ensures
        off as nat == pixel_offset(data@),
        off < 0x1_0000_0000,
{
    let bi_size = read_le_u32(data, 0);
    let bit_count: u16 = data[14] as u16 + (data[15] as u16) * 256;
    let clr_used = read_le_u32(data, 32);
    let compression = read_le_u32(data, 16);
    let masks: u64 = if bi_size == 40 && compression == 3 {
        12
    } else if bi_size == 40 && compression == 6 {
        16
    } else {
        0
    };
    let entries: u64 = if clr_used > 0 {
        clr_used
    } else if bit_count <= 8 {
        small_pow2(bit_count)
    } else {
        0
    };
    assert(entries == color_entries(le_u16_at(data@, 14), le_u32_at(data@, 32)));
    (14 + bi_size + masks + 4 * entries) % 0x1_0000_0000
}

/// The 14-byte BITMAPFILEHEADER with the given file size and pixel offset.
fn file_header(file_size: u64, off_bits: u64) -> (h: Vec<u8>)
    requires
        file_size < 0x1_0000_0000,
        off_bits < 0x1_0000_0000,
    ensures
        h@ == seq![66u8, 77u8] + le_u32_bytes(file_size as nat) + seq![0u8, 0u8, 0u8, 0u8]
            + le_u32_bytes(off_bits as nat),
        h@.len() == 14,
{
    let mut h: Vec<u8> = Vec::new();
    h.push(66u8);
    h.push(77u8);
    push_le_u32(&mut h, file_size);
    let ghost mid = h@;
    h.push(0u8);
    h.push(0u8);
    h.push(0u8);
    h.push(0u8);
    assert(h@ =~= mid + seq![0u8, 0u8, 0u8, 0u8]);
    push_le_u32(&mut h, off_bits);
    h
}

/// Builds the BMP file for a DIB with a complete BITMAPINFOHEADER.
pub fn bmp_bytes(data: &[u8]) -> (bmp: Vec<u8>)
    requires
        data@.len() >= 40,
        data@.len() + 14 <= isize::MAX,
    ensures
        bmp@ == bmp_file(data@),
        bmp@.len() == data@.len() + 14,
{
    let off_bits = pixel_offset_of(data);
    let file_size: u64 = (14 + data.len() as u64) % 0x1_0000_0000;
    assert(file_size as nat == ((14 + data@.len()) % 0x1_0000_0000) as nat);
    let mut bmp = file_header(file_size, off_bits);
    assert(bmp@ == seq![66u8, 77u8] + le_u32_bytes(((14 + data@.len()) % 0x1_0000_0000) as nat)
        + seq![0u8, 0u8, 0u8, 0u8] + le_u32_bytes(pixel_offset(data@)));
    let ghost header = bmp@;
    let mut i: usize = 0;
    while i < data.len()
        invariant
            i <= data.len(),
            bmp@ == header + data@.take(i as int),
            header.len() == 14,
        decreases data.len() - i,
    {
        bmp.push(data[i]);
        proof {
            assert(data@.take(i + 1) =~= data@.take(i as int).push(data@[i as int]));
        }
        i = i + 1;
    }
    assert(data@.take(data.len() as int) =~= data@);
    bmp
}

/// The absolute value of the 32-bit two's complement number with these bits.
fn unsigned_abs(bits: u64) -> (r: u32)
    requires
        bits < 0x1_0000_0000,
    ensures
        r as nat == unsigned_abs_bits(bits as nat),
{
    if bits < 0x8000_0000 {
        bits as u32
    } else {
        (0x1_0000_0000 - bits) as u32
    }
}

/// Decodes a CF_DIB or CF_DIBV5 clipboard entry into a displayable image.
///
/// Both formats are a raw BITMAPINFO (no file header). A BITMAPFILEHEADER
/// (14 bytes) goes in front to form a valid BMP, which becomes a base64
/// data URL that a browser can display directly.
pub fn decode_dib(data: &[u8]) -> (c: ContentKind)
    requires
        dib_decodable(data@),
    ensures
        c@ == dib_content(data@),
{
    if data.len() < INFO_HEADER_LEN {
        return hex_block(data);
    }
    let bi_size = read_le_u32(data, 0);
    if (data.len() as u64) < bi_size {
        return hex_block(data);
    }
    let width = unsigned_abs(read_le_u32(data, 4));
    let height = unsigned_abs(read_le_u32(data, 8));
    let bmp = bmp_bytes(data);
    let encoded = base64_standard(bmp.as_slice());
    let mut data_url = "data:image/bmp;base64,".to_owned();
    data_url.append(encoded.as_str());
    ContentKind::Image { width, height, data_url }
}

} // verus!
