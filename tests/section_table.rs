use transcend::sections::{sections, Section};

const EXT: usize = 0x40;
const TABLE: usize = EXT + 264;

fn put_u16(b: &mut [u8], at: usize, v: u16) {
    b[at..at + 2].copy_from_slice(&v.to_le_bytes());
}

fn put_u32(b: &mut [u8], at: usize, v: u32) {
    b[at..at + 4].copy_from_slice(&v.to_le_bytes());
}

fn image(descriptors: &[(&[u8], u32, u32)]) -> Vec<u8> {
    let mut b = vec![0u8; TABLE + 40 * descriptors.len() + 16];
    put_u16(&mut b, 0, 0x5A4D);
    put_u32(&mut b, 0x3C, EXT as u32);
    put_u32(&mut b, EXT, 0x0000_4550);
    put_u16(&mut b, EXT + 6, descriptors.len() as u16);
    for (i, (name, rva, size)) in descriptors.iter().enumerate() {
        let d = TABLE + 40 * i;
        b[d..d + name.len()].copy_from_slice(name);
        put_u32(&mut b, d + 8, *size);
        put_u32(&mut b, d + 12, *rva);
    }
    b
}

fn check(s: &Section, name: &str, base: usize, len: usize) {
    assert_eq!(s.name, name);
    assert_eq!(s.base, base);
    assert_eq!(s.len, len);
}

#[test]
fn two_sections_in_descriptor_order() {
    let img = image(&[(b".text", 0x1000, 0x2345), (b".rdata", 0x4000, 0x800)]);
    let base = 0x1_4000_0000usize;
    let found = sections(&img, base);
    assert_eq!(found.len(), 2);
    check(&found[0], ".text", base + 0x1000, 0x2345);
    check(&found[1], ".rdata", base + 0x4000, 0x800);
}

#[test]
fn duplicate_names_are_kept() {
    let img = image(&[(b".data", 0x3000, 1), (b".data", 0x2000, 2)]);
    let found = sections(&img, 0);
    assert_eq!(found.len(), 2);
    check(&found[0], ".data", 0x3000, 1);
    check(&found[1], ".data", 0x2000, 2);
}

#[test]
fn wrong_legacy_magic_gives_no_sections() {
    let mut img = image(&[(b".text", 0x1000, 0x10)]);
    img[0] = b'Z';
    assert!(sections(&img, 0x1000).is_empty());
}

#[test]
fn wrong_extended_signature_gives_no_sections() {
    let mut img = image(&[(b".text", 0x1000, 0x10)]);
    img[EXT + 1] = b'F';
    assert!(sections(&img, 0x1000).is_empty());
}

#[test]
fn short_or_empty_buffer_gives_no_sections() {
    assert!(sections(&[], 0).is_empty());
    assert!(sections(&[0x4D, 0x5A], 0).is_empty());
    let img = image(&[(b".text", 0x1000, 0x10)]);
    assert!(sections(&img[..TABLE + 39], 0).is_empty());
    assert_eq!(sections(&img[..TABLE + 40], 0).len(), 1);
}

#[test]
fn extended_header_beyond_buffer_gives_no_sections() {
    let mut img = image(&[(b".text", 0x1000, 0x10)]);
    put_u32(&mut img, 0x3C, 0x7000_0000);
    assert!(sections(&img, 0).is_empty());
    put_u32(&mut img, 0x3C, 0x8000_0040);
    assert!(sections(&img, 0).is_empty());
}

#[test]
fn address_past_end_of_address_space_gives_no_sections() {
    let img = image(&[(b".text", 0x10, 1), (b".data", 0xFFFF_FFFF, 1)]);
    assert!(sections(&img, usize::MAX - 0x100).is_empty());
    assert_eq!(sections(&img, 0).len(), 2);
}

#[test]
fn zero_sections() {
    let img = image(&[]);
    assert!(sections(&img, 0x40_0000).is_empty());
}

#[test]
fn eight_byte_name_without_terminator() {
    let img = image(&[(b"ABCDEFGH", 0x1000, 0x10)]);
    let found = sections(&img, 0);
    check(&found[0], "ABCDEFGH", 0x1000, 0x10);
}

#[test]
fn name_stops_at_first_nul() {
    let img = image(&[(b"ab\0cd", 0x1000, 0x10)]);
    let found = sections(&img, 0);
    check(&found[0], "ab", 0x1000, 0x10);
}

#[test]
fn invalid_name_bytes_are_replaced() {
    let img = image(&[(&[b'x', 0xC3, b'y'], 0x1000, 0x10)]);
    let found = sections(&img, 0);
    assert_eq!(found[0].name, "x\u{FFFD}y");
}
