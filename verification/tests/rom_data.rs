use tango::rom::{
    apply_palette, bgr555_to_rgba, merge_tiles, read_merged_tiles, read_palette, read_tile,
    unlz77, Lz77Error, MapError, MemoryMapper, Rgba,
};

#[test]
fn bgr555_expands_channels() {
    // Pure white: all five-bit channels full scale to 255.
    assert_eq!(bgr555_to_rgba(0x7fff), Rgba { r: 255, g: 255, b: 255, a: 255 });
    // Pure black stays black but opaque.
    assert_eq!(bgr555_to_rgba(0), Rgba { r: 0, g: 0, b: 0, a: 255 });
    // A red of 0b10000 expands to 10000_10 = 0x84.
    assert_eq!(bgr555_to_rgba(0x0010), Rgba { r: 0x84, g: 0, b: 0, a: 255 });
    // Green sits in bits five to nine.
    assert_eq!(bgr555_to_rgba(0x03e0), Rgba { r: 0, g: 255, b: 0, a: 255 });
}

#[test]
fn palette_starts_transparent() {
    let mut raw = vec![0u8; 32];
    // Entry one: pure blue.
    raw[2] = 0x00;
    raw[3] = 0x7c;
    let palette = read_palette(&raw);
    assert_eq!(palette.len(), 16);
    assert_eq!(palette[0], Rgba { r: 0, g: 0, b: 0, a: 0 });
    assert_eq!(palette[1], Rgba { r: 0, g: 0, b: 255, a: 255 });
}

#[test]
fn tiles_unpack_and_merge() {
    // One byte holds two pixels, low nibble first.
    let mut raw = vec![0u8; 32];
    raw[0] = 0x21;
    let tile = read_tile(&raw).unwrap();
    assert_eq!((tile.width, tile.height), (8, 8));
    assert_eq!(tile.pixels[0], 1);
    assert_eq!(tile.pixels[1], 2);
    assert!(read_tile(&raw[..31]).is_none());

    // Two tiles side by side: the second tile's pixels land eight columns in.
    let tile_a = read_tile(&vec![0x11u8; 32]).unwrap();
    let tile_b = read_tile(&vec![0x22u8; 32]).unwrap();
    let sheet = merge_tiles(&vec![tile_a, tile_b], 2);
    assert_eq!((sheet.width, sheet.height), (16, 8));
    assert_eq!(sheet.pixels[0], 1);
    assert_eq!(sheet.pixels[8], 2);
    assert_eq!(sheet.pixels[16 * 7 + 15], 2);
}

#[test]
fn merged_tiles_apply_palette() {
    let mut raw = vec![0x11u8; 32];
    raw.extend_from_slice(&[0x22u8; 32]);
    let sheet = read_merged_tiles(&raw, 2).unwrap();
    assert_eq!((sheet.width, sheet.height), (16, 8));
    let mut palette = vec![Rgba { r: 0, g: 0, b: 0, a: 0 }; 16];
    palette[1] = Rgba { r: 10, g: 0, b: 0, a: 255 };
    palette[2] = Rgba { r: 0, g: 20, b: 0, a: 255 };
    let image = apply_palette(&sheet, &palette);
    assert_eq!(image.pixels[0].r, 10);
    assert_eq!(image.pixels[8].g, 20);
    // A byte count that is not whole tiles cannot be read.
    assert!(read_merged_tiles(&raw[..40], 2).is_none());
}

fn lz_header(n: u32) -> [u8; 4] {
    (0x10u32 | (n << 8)).to_le_bytes()
}

#[test]
fn unlz77_decodes_literals_and_references() {
    // Eight literals, then one back-reference copying three bytes from four
    // bytes back.
    let mut data = vec![];
    data.extend_from_slice(&lz_header(11));
    data.push(0x00); // eight literal flags
    data.extend_from_slice(&[1, 2, 3, 4, 5, 6, 7, 8]);
    data.push(0x80); // one reference flag
    // length 3 (stored as 0), offset 3: copy from out[len - 4].
    data.extend_from_slice(&[0x00, 0x03]);
    let out = unlz77(&data).unwrap();
    assert_eq!(out, vec![1, 2, 3, 4, 5, 6, 7, 8, 5, 6, 7]);
}

#[test]
fn unlz77_overlapping_reference_repeats() {
    // A reference with offset zero repeats the last byte.
    let mut data = vec![];
    data.extend_from_slice(&lz_header(5));
    data.push(0x40); // second event is the reference
    data.push(9);
    data.extend_from_slice(&[0x10, 0x00]); // length 4, offset 0
    let out = unlz77(&data).unwrap();
    assert_eq!(out, vec![9, 9, 9, 9, 9]);
}

#[test]
fn unlz77_truncates_to_header_length() {
    // The reference produces more bytes than the header asks for; the
    // output is cut to the declared length.
    let mut data = vec![];
    data.extend_from_slice(&lz_header(3));
    data.push(0x40);
    data.push(7);
    data.extend_from_slice(&[0x30, 0x00]); // length 6, offset 0
    let out = unlz77(&data).unwrap();
    assert_eq!(out, vec![7, 7, 7]);
}

#[test]
fn unlz77_rejects_malformed_streams() {
    // Too short for a header.
    assert_eq!(unlz77(&[0x10, 0x00]), Err(Lz77Error::UnexpectedEnd));
    // A wrong tag byte.
    assert_eq!(unlz77(&[0x11, 1, 0, 0]), Err(Lz77Error::InvalidHeader));
    // The stream ends inside the data.
    let mut data = vec![];
    data.extend_from_slice(&lz_header(4));
    data.push(0x00);
    data.push(1);
    assert_eq!(unlz77(&data), Err(Lz77Error::UnexpectedEnd));
    // A reference pointing before the start of the output.
    let mut data2 = vec![];
    data2.extend_from_slice(&lz_header(4));
    data2.push(0x40);
    data2.push(1);
    data2.extend_from_slice(&[0x00, 0x05]);
    assert_eq!(unlz77(&data2), Err(Lz77Error::BadReference));
}

#[test]
fn mapper_resolves_regions() {
    let rom: Vec<u8> = (0u8..64).collect();
    let wram: Vec<u8> = (100u8..164).collect();
    let mut mapper = MemoryMapper::new(rom, wram);
    // Working memory.
    let w = mapper.get(0x0200_0010).unwrap();
    assert_eq!(w[0], 116);
    assert_eq!(w.len(), 48);
    // ROM.
    let r = mapper.get(0x0800_0004).unwrap();
    assert_eq!(r[0], 4);
    assert_eq!(r.len(), 60);
    // Outside every region.
    assert_eq!(mapper.get(0x0500_0000), Err(MapError::OutOfRange));
    assert_eq!(mapper.get(0x0200_0000 + 65), Err(MapError::OutOfRange));
}

#[test]
fn mapper_decompresses_and_caches() {
    // A compressed region at the start of the ROM: the four decompressed
    // header bytes are skipped.
    let mut rom = vec![];
    rom.extend_from_slice(&lz_header(6));
    rom.push(0x00);
    rom.extend_from_slice(&[1, 2, 3, 4, 5, 6]);
    let mut mapper = MemoryMapper::new(rom, vec![]);
    let first = mapper.get(0x8800_0000).unwrap();
    assert_eq!(first, vec![5, 6]);
    // A second lookup is served from the cache and agrees.
    let second = mapper.get(0x8800_0000).unwrap();
    assert_eq!(second, vec![5, 6]);
    // A region that does not decompress is an error.
    let mut bad = MemoryMapper::new(vec![0x11, 0, 0, 0], vec![]);
    assert_eq!(bad.get(0x8800_0000), Err(MapError::BadCompressedData));
}
