//! The section table of a portable-executable image, read from its bytes.

use vstd::prelude::*;
use vstd::utf8::{decode_utf8, valid_utf8};

verus! {

/// Magic of the legacy header ("MZ"), read little-endian at offset 0.
pub const LEGACY_MAGIC: u16 = 0x5A4D;

/// Offset of the legacy header's field that locates the extended header.
pub const EXTENDED_OFFSET_FIELD: usize = 0x3C;

/// Signature that opens the extended header ("PE\0\0"), little-endian.
pub const EXTENDED_SIGNATURE: u32 = 0x0000_4550;

/// Size of the 64-bit extended header; the section table follows it.
pub const EXTENDED_HEADER_LEN: usize = 264;

/// Offset of the section count inside the extended header.
pub const SECTION_COUNT_FIELD: usize = 6;

/// Size of one section descriptor.
pub const DESCRIPTOR_LEN: usize = 40;

/// Length of the NUL-padded name at the start of a descriptor.
pub const NAME_LEN: usize = 8;

/// Offset of the virtual size inside a descriptor.
pub const VIRTUAL_SIZE_FIELD: usize = 8;

/// Offset of the relative virtual address inside a descriptor.
pub const RVA_FIELD: usize = 12;

/// A named region of a loaded image.
#[derive(Debug, Clone)]
pub struct Section {
    /// Display name, decoded from at most eight bytes.
    pub name: String,
    /// Address of the region's first byte.
    pub base: usize,
    /// Length of the region in bytes.
    pub len: usize,
}

/// The little-endian 16-bit value at `off`.
pub open spec fn u16_at(b: Seq<u8>, off: int) -> int {
    b[off] as int + 256 * b[off + 1] as int
}

/// The little-endian 32-bit value at `off`.
pub open spec fn u32_at(b: Seq<u8>, off: int) -> int {
    b[off] as int + 256 * b[off + 1] as int + 65536 * b[off + 2] as int + 16777216 * b[off
        + 3] as int
}

/// Where the extended header starts.
pub open spec fn extended_offset(img: Seq<u8>) -> int {
    u32_at(img, EXTENDED_OFFSET_FIELD as int)
}

/// How many section descriptors the extended header announces.
pub open spec fn section_count(img: Seq<u8>) -> int {
    u16_at(img, extended_offset(img) + SECTION_COUNT_FIELD)
}

/// Where descriptor `i` starts.
pub open spec fn descriptor_at(img: Seq<u8>, i: int) -> int {
    extended_offset(img) + EXTENDED_HEADER_LEN + DESCRIPTOR_LEN * i
}

/// The two magic markers are right and every header and descriptor lies
/// inside the buffer. The field that locates the extended header is a
/// signed 32-bit value and must not be negative.
pub open spec fn headers_valid(img: Seq<u8>) -> bool {
    &&& img.len() >= EXTENDED_OFFSET_FIELD + 4
    &&& u16_at(img, 0) == LEGACY_MAGIC
    &&& extended_offset(img) < 0x8000_0000
    &&& extended_offset(img) + EXTENDED_HEADER_LEN <= img.len()
    &&& u32_at(img, extended_offset(img)) == EXTENDED_SIGNATURE
    &&& descriptor_at(img, section_count(img)) <= img.len()
}

/// Relative virtual address of section `i`.
pub open spec fn section_rva(img: Seq<u8>, i: int) -> int {
    u32_at(img, descriptor_at(img, i) + RVA_FIELD)
}

/// Virtual size of section `i`.
pub open spec fn section_size(img: Seq<u8>, i: int) -> int {
    u32_at(img, descriptor_at(img, i) + VIRTUAL_SIZE_FIELD)
}

/// Index of the first NUL byte of `s` at or after `i`, or the length of `s`.
pub open spec fn nul_from(s: Seq<u8>, i: int) -> int
    decreases s.len() - i,
{
    if i >= s.len() || s[i] == 0 {
        i
    } else {
        nul_from(s, i + 1)
    }
}

/// The name bytes of section `i`: its eight-byte field up to the first NUL.
pub open spec fn name_bytes(img: Seq<u8>, i: int) -> Seq<u8> {
    let field = img.subrange(descriptor_at(img, i), descriptor_at(img, i) + NAME_LEN);
    field.take(nul_from(field, 0))
}

/// Every section address `base + rva` is a valid address.
pub open spec fn addresses_fit(img: Seq<u8>, base: usize) -> bool {
    forall|i: int| 0 <= i < section_count(img) ==> base + #[trigger] section_rva(img, i) <= usize::MAX
}

/// The image can be read as a section table loaded at `base`.
pub open spec fn layout_valid(img: Seq<u8>, base: usize) -> bool {
    headers_valid(img) && addresses_fit(img, base)
}

/// A buffer whose legacy-header magic is wrong holds no sections.
pub proof fn lemma_wrong_magic_no_sections(img: Seq<u8>, base: usize)
    requires
        img.len() < 2 || u16_at(img, 0) != LEGACY_MAGIC,
    ensures
        (if layout_valid(img, base) {
            section_count(img)
        } else {
            0
        }) == 0,
{
}

/// The text that `String::from_utf8_lossy` makes of some bytes.
pub uninterp spec fn utf8_lossy(bytes: Seq<u8>) -> Seq<char>;

/// Relies on `String::from_utf8_lossy`: a function of the bytes alone, which
/// decodes valid UTF-8 unchanged and replaces invalid sequences otherwise.
#[verifier::external_body]
fn decode_lossy(bytes: &[u8]) -> (r: String)
    ensures
        r@ == utf8_lossy(bytes@),
        valid_utf8(bytes@) ==> r@ == decode_utf8(bytes@),
{
    String::from_utf8_lossy(bytes).into_owned()
}

/// The little-endian 16-bit value at `off`.
fn read_u16(b: &[u8], off: usize) -> (r: u16)
    requires
        off + 2 <= b@.len(),
    ensures
        r as int == u16_at(b@, off as int),
{
    (b[off] as u16) + (b[off + 1] as u16) * 256
}

/// The little-endian 32-bit value at `off`.
fn read_u32(b: &[u8], off: usize) -> (r: u32)
    requires
        off + 4 <= b@.len(),
    ensures
        r as int == u32_at(b@, off as int),
{
    (b[off] as u32) + (b[off + 1] as u32) * 256 + (b[off + 2] as u32) * 65536 + (b[off + 3] as u32)
        * 16777216
}

/// The name of the section whose descriptor starts at `d`.
fn read_name(image: &[u8], d: usize) -> (r: String)
    requires
        d + NAME_LEN <= image@.len(),
    ensures
        r@ == utf8_lossy(
            image@.subrange(d as int, d + NAME_LEN).take(
                nul_from(image@.subrange(d as int, d + NAME_LEN), 0),
            ),
        ),
{
    let _ = image.len();
    let field = &image[d..d + NAME_LEN];
    let mut j: usize = 0;
    while j < NAME_LEN && field[j] != 0
        invariant
            field@.len() == NAME_LEN,
            0 <= j <= NAME_LEN,
            nul_from(field@, j as int) == nul_from(field@, 0),
        decreases NAME_LEN - j,
    {
        j = j + 1;
    }
    decode_lossy(&field[0..j])
}

/// The sections described by the image's headers, in descriptor order, each
/// at `base` plus its relative virtual address. A buffer that does not hold
/// a well-formed header pair and section table gives no sections.
pub fn sections(image: &[u8], base: usize) -> (r: Vec<Section>)
    ensures
        r@.len() == if layout_valid(image@, base) {
            section_count(image@)
        } else {
            0
        },
        forall|i: int|
            0 <= i < r@.len() ==> {
                &&& (#[trigger] r@[i]).base == base + section_rva(image@, i)
                &&& r@[i].len == section_size(image@, i)
                &&& r@[i].name@ == utf8_lossy(name_bytes(image@, i))
            },
{
    let len = image.len();
    if len < EXTENDED_OFFSET_FIELD + 4 || read_u16(image, 0) != LEGACY_MAGIC {
        return Vec::new();
    }
    let ext = read_u32(image, EXTENDED_OFFSET_FIELD);
    if ext >= 0x8000_0000 || ext as usize > len || EXTENDED_HEADER_LEN > len - ext as usize {
        return Vec::new();
    }
    let ext = ext as usize;
    if read_u32(image, ext) != EXTENDED_SIGNATURE {
        return Vec::new();
    }
    let count = read_u16(image, ext + SECTION_COUNT_FIELD) as usize;
    let table = ext + EXTENDED_HEADER_LEN;
    if DESCRIPTOR_LEN * count > len - table {
        return Vec::new();
    }
    let mut out: Vec<Section> = Vec::new();
    let mut i: usize = 0;
    while i < count
        invariant
            headers_valid(image@),
            count == section_count(image@),
            table == descriptor_at(image@, 0),
            0 <= i <= count,
            out@.len() == i,
            forall|k: int| 0 <= k < i ==> base + #[trigger] section_rva(image@, k) <= usize::MAX,
            forall|k: int|
                0 <= k < i ==> {
                    &&& (#[trigger] out@[k]).base == base + section_rva(image@, k)
                    &&& out@[k].len == section_size(image@, k)
                    &&& out@[k].name@ == utf8_lossy(name_bytes(image@, k))
                },
        decreases count - i,
    {
        let d = table + DESCRIPTOR_LEN * i;
        assert(d == descriptor_at(image@, i as int));
        let rva = read_u32(image, d + RVA_FIELD) as usize;
        if rva > usize::MAX - base {
            assert(!(base + section_rva(image@, i as int) <= usize::MAX));
            return Vec::new();
        }
        let size = read_u32(image, d + VIRTUAL_SIZE_FIELD) as usize;
        let name = read_name(image, d);
        out.push(Section { name, base: base + rva, len: size });
        i = i + 1;
    }
    out
}

} // verus!
