//! ROM-data accessors: chip and patch-card metadata surfaces, palette and
//! tile decoding, the title's LZ77 decompression, and the memory mapper that
//! resolves GBA addresses to ROM, working memory or decompressed regions.

use vstd::prelude::*;

use crate::bytes::{le16, le32, read_u16_le, read_u32_le};
use crate::save::copy_range;
use std::collections::HashMap;

verus! {

#[derive(Clone, Copy, Debug, PartialEq, Eq, Structural)]
pub enum ChipClass {
    Standard,
    Mega,
    Giga,
    NoClass,
    ProgramAdvance,
}

/// One effect line of a patch card.
pub struct PatchCard56Effect {
    pub id: usize,
    pub name: Option<String>,
    pub parameter: u8,
    pub is_ability: bool,
    pub is_debuff: bool,
}

/// Per-title metadata surface for the later titles' patch cards.
pub trait PatchCard56 {
    fn name(&self) -> Option<String>;

    fn mb(&self) -> u8;

    fn effects(&self) -> Vec<PatchCard56Effect>;
}

/// Per-title metadata surface for the fourth title's patch cards.
pub trait PatchCard4 {
    fn name(&self) -> Option<String>;

    fn slot(&self) -> u8;

    fn effect(&self) -> Option<String>;

    fn bug(&self) -> Option<String>;
}

#[derive(Clone, Copy, Debug, PartialEq, Eq, Structural)]
pub enum NavicustPartColor {
    White,
    Yellow,
    Pink,
    Red,
    Blue,
    Green,
    Orange,
    Purple,
    Gray,
}

/// Per-title metadata surface for styles.
pub trait Style {
    fn name(&self) -> Option<String>;

    fn extra_ncp_color(&self) -> Option<NavicustPartColor>;
}

/// One piece of a patch card effect description template.
pub enum PatchCard56EffectTemplatePart {
    String(String),
    PrintVar(usize),
}

pub type PatchCard56EffectTemplate = Vec<PatchCard56EffectTemplatePart>;

/// One decoded display color.
#[derive(Clone, Copy, Debug, PartialEq, Eq, Structural)]
pub struct Rgba {
    pub r: u8,
    pub g: u8,
    pub b: u8,
    pub a: u8,
}

/// The five-to-eight bit channel expansion of one packed display color.
pub open spec fn spec_bgr555_to_rgba(c: u16) -> Rgba {
    Rgba {
        r: (((c & 0x1f) << 3) | ((c & 0x1f) >> 2)) as u8,
        g: ((((c >> 5) & 0x1f) << 3) | (((c >> 5) & 0x1f) >> 2)) as u8,
        b: ((((c >> 10) & 0x1f) << 3) | (((c >> 10) & 0x1f) >> 2)) as u8,
        a: 0xff,
    }
}

/// Expands a packed fifteen-bit color to four eight-bit channels, fully
/// opaque.
pub fn bgr555_to_rgba(c: u16) -> (out: Rgba)
    ensures
        out == spec_bgr555_to_rgba(c),
{
    let r5 = c & 0x1f;
    let g5 = (c >> 5) & 0x1f;
    let b5 = (c >> 10) & 0x1f;
    proof {
        assert(((c & 0x1f) << 3 | (c & 0x1f) >> 2) <= 255) by (bit_vector);
        assert((((c >> 5) & 0x1f) << 3 | ((c >> 5) & 0x1f) >> 2) <= 255) by (bit_vector);
        assert((((c >> 10) & 0x1f) << 3 | ((c >> 10) & 0x1f) >> 2) <= 255) by (bit_vector);
    }
    Rgba {
        r: ((r5 << 3) | (r5 >> 2)) as u8,
        g: ((g5 << 3) | (g5 >> 2)) as u8,
        b: ((b5 << 3) | (b5 >> 2)) as u8,
        a: 0xff,
    }
}

/// The color a palette slot decodes to: slot zero is transparent, the rest
/// expand their packed color.
pub open spec fn spec_palette_entry(raw: Seq<u8>, i: int) -> Rgba {
    if i == 0 {
        Rgba { r: 0, g: 0, b: 0, a: 0 }
    } else {
        spec_bgr555_to_rgba(le16(raw.subrange(2 * i, 2 * i + 2)))
    }
}

/// Decodes a sixteen-color palette: the first entry is transparent, the
/// fifteen others are packed colors in order.
pub fn read_palette(raw: &[u8]) -> (out: Vec<Rgba>)
    requires
        raw@.len() >= 32,
    ensures
        out@.len() == 16,
        forall|i: int| 0 <= i < 16 ==> out@[i] == spec_palette_entry(raw@, i),
{
    let mut out: Vec<Rgba> = Vec::new();
    out.push(Rgba { r: 0, g: 0, b: 0, a: 0 });
    let mut i: usize = 1;
    while i < 16
        invariant
            1 <= i <= 16,
            raw@.len() >= 32,
            out@.len() == i,
            forall|k: int| 0 <= k < i ==> out@[k] == spec_palette_entry(raw@, k),
        decreases 16 - i,
    {
        let c = read_u16_le(raw, 2 * i);
        out.push(bgr555_to_rgba(c));
        i = i + 1;
    }
    out
}

pub const TILE_WIDTH: usize = 8;

pub const TILE_HEIGHT: usize = 8;

pub const TILE_BYTES: usize = 32;

/// An indexed-color image: one palette index per pixel, row-major.
pub struct PalettedImage {
    pub width: usize,
    pub height: usize,
    pub pixels: Vec<u8>,
}

impl PalettedImage {
    /// Every pixel indexes the sixteen-color palette.
    pub open spec fn wf(self) -> bool {
        &&& self.pixels@.len() == self.width * self.height
        &&& forall|i: int| 0 <= i < self.pixels@.len() ==> self.pixels@[i] < 16
    }
}

/// A decoded image: one color per pixel, row-major.
pub struct RgbaImage {
    pub width: usize,
    pub height: usize,
    pub pixels: Vec<Rgba>,
}

/// The two pixels packed in one tile byte: low nibble first.
pub open spec fn spec_tile_pixel(raw: Seq<u8>, i: int) -> u8 {
    if i % 2 == 0 {
        (raw[i / 2] & 0xf) as u8
    } else {
        (raw[i / 2] >> 4) as u8
    }
}

/// Unpacks one eight-by-eight tile: each byte holds two palette indices, low
/// nibble first.
pub fn read_tile(raw: &[u8]) -> (out: Option<PalettedImage>)
    ensures
        match out {
            Some(img) => {
                &&& raw@.len() == TILE_BYTES
                &&& img.wf()
                &&& img.width == TILE_WIDTH
                &&& img.height == TILE_HEIGHT
                &&& forall|i: int| 0 <= i < 64 ==> img.pixels@[i] == spec_tile_pixel(raw@, i)
            },
            None => raw@.len() != TILE_BYTES,
        },
{
    if raw.len() != TILE_BYTES {
        return None;
    }
    let mut pixels: Vec<u8> = Vec::new();
    let mut i: usize = 0;
    while i < TILE_BYTES
        invariant
            i <= TILE_BYTES,
            raw@.len() == TILE_BYTES,
            pixels@.len() == 2 * i,
            forall|k: int| 0 <= k < 2 * i ==> pixels@[k] == spec_tile_pixel(raw@, k),
            forall|k: int| 0 <= k < 2 * i ==> pixels@[k] < 16,
        decreases TILE_BYTES - i,
    {
        let v = raw[i];
        pixels.push(v & 0xf);
        pixels.push(v >> 4);
        proof {
            assert(v & 0xf < 16 && v >> 4 < 16) by (bit_vector);
        }
        i = i + 1;
    }
    Some(PalettedImage { width: TILE_WIDTH, height: TILE_HEIGHT, pixels })
}

/// Where an output pixel of a merged tile sheet comes from: which tile, and
/// which pixel within it.
pub open spec fn spec_merged_source(cols: int, width: int, i: int) -> (int, int) {
    let x = i % width;
    let y = i / width;
    ((y / 8) * cols + x / 8, (y % 8) * 8 + x % 8)
}

/// Lays tiles out left to right, top to bottom, into one sheet `cols` tiles
/// wide.
pub fn merge_tiles(tiles: &Vec<PalettedImage>, cols: usize) -> (out: PalettedImage)
    requires
        1 <= cols <= 4096,
        tiles@.len() <= 4096,
        forall|t: int|
            0 <= t < tiles@.len() ==> (#[trigger] tiles@[t]).wf() && tiles@[t].width == 8
                && tiles@[t].height == 8,
    ensures
        out.wf(),
        out.width == cols * 8,
        out.height == (tiles@.len() as int / cols as int) * 8,
        forall|i: int|
            0 <= i < out.pixels@.len() ==> {
                let (t, p) = spec_merged_source(cols as int, out.width as int, i);
                #[trigger] out.pixels@[i] == tiles@[t].pixels@[p]
            },
{
    let rows = tiles.len() / cols;
    proof {
        vstd::arithmetic::div_mod::lemma_fundamental_div_mod(tiles@.len() as int, cols as int);
        assert(rows * cols <= tiles@.len() && rows <= tiles@.len()) by (nonlinear_arith)
            requires
                rows == tiles@.len() as int / cols as int,
                1 <= cols,
                tiles@.len() >= 0,
        ;
    }
    let width = cols * 8;
    let height = rows * 8;
    proof {
        assert(width * height <= 32768 * 32768) by (nonlinear_arith)
            requires
                0 <= width <= 32768,
                0 <= height <= 32768,
        ;
    }
    let total = width * height;
    let mut pixels: Vec<u8> = Vec::new();
    let mut i: usize = 0;
    while i < total
        invariant
            i <= total,
            1 <= cols <= 4096,
            tiles@.len() <= 4096,
            rows == tiles@.len() as int / cols as int,
            width == cols * 8,
            height == rows * 8,
            total == width * height,
            rows * cols <= tiles@.len(),
            forall|t: int|
                0 <= t < tiles@.len() ==> (#[trigger] tiles@[t]).wf() && tiles@[t].width == 8
                    && tiles@[t].height == 8,
            pixels@.len() == i,
            forall|k: int|
                0 <= k < i ==> {
                    let (t, p) = spec_merged_source(cols as int, width as int, k);
                    #[trigger] pixels@[k] == tiles@[t].pixels@[p]
                },
            forall|k: int| 0 <= k < i ==> pixels@[k] < 16,
        decreases total - i,
    {
        let x = i % width;
        let y = i / width;
        proof {
            if height == 0 {
                assert(width * height == 0) by (nonlinear_arith)
                    requires
                        height == 0,
                ;
            }
            assert(x < width && y < height) by {
                vstd::arithmetic::div_mod::lemma_fundamental_div_mod(i as int, width as int);
                assert(i < width * height);
                assert(y < height) by (nonlinear_arith)
                    requires
                        i < width * height,
                        y == i as int / width as int,
                        width >= 1,
                        height >= 1,
                ;
            }
            assert((y as int / 8) * cols + x as int / 8 < rows * cols) by (nonlinear_arith)
                requires
                    y < rows * 8,
                    x < cols * 8,
                    cols >= 1,
                    rows >= 1,
            ;
            assert(rows * cols <= tiles@.len());
        }
        let t = (y / 8) * cols + x / 8;
        let p = (y % 8) * 8 + x % 8;
        proof {
            assert(t < rows * cols);
            assert(p < 64);
        }
        let byte = tiles[t].pixels[p];
        pixels.push(byte);
        i = i + 1;
    }
    PalettedImage { width, height, pixels }
}

/// Applies a sixteen-color palette to an indexed image.
pub fn apply_palette(paletted: &PalettedImage, palette: &Vec<Rgba>) -> (out: RgbaImage)
    requires
        paletted.wf(),
        palette@.len() == 16,
    ensures
        out.width == paletted.width,
        out.height == paletted.height,
        out.pixels@.len() == paletted.pixels@.len(),
        forall|i: int|
            0 <= i < out.pixels@.len() ==> out.pixels@[i] == palette@[paletted.pixels@[i] as int],
{
    let mut pixels: Vec<Rgba> = Vec::new();
    let n = paletted.pixels.len();
    let mut i: usize = 0;
    while i < n
        invariant
            i <= n,
            n == paletted.pixels@.len(),
            paletted.wf(),
            palette@.len() == 16,
            pixels@.len() == i,
            forall|k: int|
                0 <= k < i ==> pixels@[k] == palette@[paletted.pixels@[k] as int],
        decreases n - i,
    {
        let idx = paletted.pixels[i];
        pixels.push(palette[idx as usize]);
        i = i + 1;
    }
    RgbaImage { width: paletted.width, height: paletted.height, pixels }
}

/// Unpacks a run of tiles and lays them out into one sheet.
pub fn read_merged_tiles(raw: &[u8], cols: usize) -> (out: Option<PalettedImage>)
    requires
        1 <= cols <= 4096,
        raw@.len() <= 4096 * 32,
    ensures
        raw@.len() % 32 != 0 ==> out is None,
{
    if raw.len() % TILE_BYTES != 0 {
        return None;
    }
    let count = raw.len() / TILE_BYTES;
    let mut tiles: Vec<PalettedImage> = Vec::new();
    let mut t: usize = 0;
    proof {
        vstd::arithmetic::div_mod::lemma_fundamental_div_mod(raw@.len() as int, 32);
    }
    while t < count
        invariant
            t <= count,
            count <= 4096,
            count == raw@.len() as int / 32,
            raw@.len() == 32 * count,
            tiles@.len() == t,
            forall|k: int|
                0 <= k < t ==> (#[trigger] tiles@[k]).wf() && tiles@[k].width == 8
                    && tiles@[k].height == 8,
        decreases count - t,
    {
        proof {
            assert(32 * (t + 1) <= 32 * count) by (nonlinear_arith)
                requires
                    t < count,
            ;
            assert(t * 32 + 32 <= raw@.len());
        }
        let chunk = copy_range(raw, t * TILE_BYTES, TILE_BYTES);
        let tile = match read_tile(chunk.as_slice()) {
            Some(tile) => tile,
            None => {
                return None;
            },
        };
        tiles.push(tile);
        t = t + 1;
    }
    Some(merge_tiles(&tiles, cols))
}

/// Why a compressed region could not be decompressed.
#[derive(Clone, Copy, Debug, PartialEq, Eq, Structural)]
pub enum Lz77Error {
    /// The first header byte is not the compression tag.
    InvalidHeader,
    /// The stream ended inside a literal, a reference or the header.
    UnexpectedEnd,
    /// A back-reference points before the start of the output.
    BadReference,
}

/// The output extended by `count` bytes, each copied from `off + 1` bytes
/// back — a copy that may overlap what it appends.
pub open spec fn lz_extend(out: Seq<u8>, off: int, count: int) -> Seq<u8>
    decreases count,
{
    if count <= 0 {
        out
    } else {
        lz_extend(out.push(out[out.len() - off - 1]), off, count - 1)
    }
}

/// One step of the decompressor: eight flag bits per group, a clear bit
/// copies a literal byte, a set bit copies `(length, offset)` bytes from the
/// output so far. `None` is a malformed stream.
pub open spec fn lz_bits(s: Seq<u8>, pos: int, flags: u8, bit: int, out: Seq<u8>, n: int) -> Option<
    Seq<u8>,
>
    decreases s.len() - pos,
{
    if out.len() >= n {
        Some(out.take(n))
    } else if pos >= s.len() {
        None
    } else if bit >= 8 {
        lz_bits(s, pos + 1, s[pos], 0, out, n)
    } else if flags & (0x80u8 >> bit) == 0 {
        lz_bits(s, pos + 1, flags, bit + 1, out.push(s[pos]), n)
    } else if pos + 2 > s.len() {
        None
    } else {
        let info = (s[pos] as u16) << 8 | (s[pos + 1] as u16);
        let m = info >> 12;
        let off = info & 0xfff;
        if off + 1 > out.len() {
            None
        } else {
            lz_bits(s, pos + 2, flags, bit + 1, lz_extend(out, off as int, m + 3), n)
        }
    }
}

/// The decompression of a whole stream: a four-byte header carrying the tag
/// and the decompressed length, then the flag-driven groups.
pub open spec fn spec_unlz77(s: Seq<u8>) -> Option<Seq<u8>> {
    if s.len() < 4 {
        None
    } else {
        let header = le32(s.subrange(0, 4));
        if header & 0xff != 0x10 {
            None
        } else {
            lz_bits(s, 4, 0, 8, Seq::empty(), (header >> 8) as int)
        }
    }
}

/// Decompresses an LZ77 region: returns exactly the bytes the title's
/// decompressor would produce, or an error on any malformed stream.
pub fn unlz77(input: &[u8]) -> (r: Result<Vec<u8>, Lz77Error>)
    ensures
        match r {
            Ok(v) => spec_unlz77(input@) == Some(v@),
            Err(e) => spec_unlz77(input@) is None,
        },
{
    if input.len() < 4 {
        return Err(Lz77Error::UnexpectedEnd);
    }
    let header = read_u32_le(input, 0);
    if header & 0xff != 0x10 {
        return Err(Lz77Error::InvalidHeader);
    }
    let n = (header >> 8) as usize;
    let mut out: Vec<u8> = Vec::new();
    let mut pos: usize = 4;
    let mut flags: u8 = 0;
    let mut bit: u8 = 8;
    let input_len = input.len();
    while out.len() < n
        invariant
            4 <= pos <= input_len,
            input_len == input@.len(),
            n == (header >> 8) as int,
            spec_unlz77(input@) == lz_bits(
                input@,
                pos as int,
                flags,
                bit as int,
                out@,
                n as int,
            ),
            out@.len() < n ==> bit <= 8,
        decreases input_len - pos, 8 - bit as int,
    {
        if pos >= input_len {
            return Err(Lz77Error::UnexpectedEnd);
        }
        if bit >= 8 {
            flags = input[pos];
            pos = pos + 1;
            bit = 0;
            continue ;
        }
        if flags & (0x80u8 >> bit) == 0 {
            let b = input[pos];
            out.push(b);
            pos = pos + 1;
            bit = bit + 1;
            continue ;
        }
        if input_len - pos < 2 {
            return Err(Lz77Error::UnexpectedEnd);
        }
        let info: u16 = (input[pos] as u16) << 8 | (input[pos + 1] as u16);
        let m = (info >> 12) as usize;
        let off = (info & 0xfff) as usize;
        proof {
            assert(info >> 12 <= 0xf && (info & 0xfff) <= 0xfff) by (bit_vector);
        }
        if off + 1 > out.len() {
            return Err(Lz77Error::BadReference);
        }
        let ghost out_entry = out@;
        let mut j: usize = 0;
        while j < m + 3
            invariant
                m <= 15,
                j <= m + 3,
                off + 1 <= out_entry.len(),
                out@ == lz_extend(out_entry, off as int, j as int),
                out@.len() == out_entry.len() + j,
            decreases m + 3 - j,
        {
            proof {
                lemma_lz_extend_len(out_entry, off as int, j as int);
                lemma_lz_extend_unfold(out_entry, off as int, j as int);
            }
            let b = out[out.len() - off - 1];
            out.push(b);
            j = j + 1;
            proof {
                lemma_lz_extend_len(out_entry, off as int, j as int);
            }
        }
        pos = pos + 2;
        bit = bit + 1;
    }
    let mut result = out;
    result.truncate(n);
    proof {
        assert(result@ =~= spec_unlz77(input@)->0);
    }
    Ok(result)
}

/// Why an address could not be resolved.
#[derive(Clone, Copy, Debug, PartialEq, Eq, Structural)]
pub enum MapError {
    /// The address falls outside every mapped region.
    OutOfRange,
    /// The compressed region at the address does not decompress.
    BadCompressedData,
}

/// The decompressed bytes behind a compressed-region address, past the
/// four-byte header the titles skip.
pub open spec fn spec_decoded_at(rom: Seq<u8>, start: u32) -> Option<Seq<u8>> {
    let off = start - 0x8800_0000;
    if off > rom.len() {
        None
    } else {
        match spec_unlz77(rom.skip(off)) {
            Some(d) => if d.len() >= 4 {
                Some(d.skip(4))
            } else {
                None
            },
            None => None,
        }
    }
}

/// What a mapper lookup yields: a suffix of working memory, a suffix of the
/// ROM, or a decompressed region — a pure function of the two images and the
/// address, whatever the cache holds.
pub open spec fn spec_mapper_get(rom: Seq<u8>, wram: Seq<u8>, start: u32) -> Option<Seq<u8>> {
    if 0x0200_0000 <= start < 0x0400_0000 {
        let off = start - 0x0200_0000;
        if off <= wram.len() {
            Some(wram.skip(off))
        } else {
            None
        }
    } else if 0x0800_0000 <= start < 0x0a00_0000 {
        let off = start - 0x0800_0000;
        if off <= rom.len() {
            Some(rom.skip(off))
        } else {
            None
        }
    } else if 0x8800_0000 <= start < 0x8a00_0000 {
        spec_decoded_at(rom, start)
    } else {
        None
    }
}

/// Resolves GBA addresses against a ROM and a working-memory image, caching
/// decompressed regions.
pub struct MemoryMapper {
    pub rom: Vec<u8>,
    pub wram: Vec<u8>,
    pub cache: HashMap<u32, Vec<u8>>,
}

impl MemoryMapper {
    /// Every cache entry holds exactly the decompressed region of its
    /// address, so a lookup's result never depends on the cache state.
    pub open spec fn wf(self) -> bool {
        forall|k: u32|
            #[trigger] self.cache@.contains_key(k) ==> spec_decoded_at(self.rom@, k) == Some(
                self.cache@[k]@,
            )
    }

    pub fn new(rom: Vec<u8>, wram: Vec<u8>) -> (r: MemoryMapper)
        ensures
            r.wf(),
            r.rom@ == rom@,
            r.wram@ == wram@,
    {
        MemoryMapper { rom, wram, cache: HashMap::new() }
    }

    /// Resolves one address: the bytes from the address to the end of its
    /// region. Addresses outside every region, or a compressed region that
    /// does not decompress, are errors.
    pub fn get(&mut self, start: u32) -> (r: Result<Vec<u8>, MapError>)
        requires
            old(self).wf(),
        ensures
            final(self).wf(),
            final(self).rom@ == old(self).rom@,
            final(self).wram@ == old(self).wram@,
            match r {
                Ok(v) => spec_mapper_get(old(self).rom@, old(self).wram@, start) == Some(v@),
                Err(e) => spec_mapper_get(old(self).rom@, old(self).wram@, start) is None,
            },
    {
        if 0x0200_0000 <= start && start < 0x0400_0000 {
            let off = (start - 0x0200_0000) as usize;
            if off > self.wram.len() {
                return Err(MapError::OutOfRange);
            }
            let n = self.wram.len() - off;
            let v = copy_range(self.wram.as_slice(), off, n);
            proof {
                assert(v@ =~= self.wram@.skip(off as int));
            }
            Ok(v)
        } else if 0x0800_0000 <= start && start < 0x0a00_0000 {
            let off = (start - 0x0800_0000) as usize;
            if off > self.rom.len() {
                return Err(MapError::OutOfRange);
            }
            let n = self.rom.len() - off;
            let v = copy_range(self.rom.as_slice(), off, n);
            proof {
                assert(v@ =~= self.rom@.skip(off as int));
            }
            Ok(v)
        } else if 0x8800_0000 <= start && start < 0x8a00_0000 {
            match self.cache.get(&start) {
                Some(cached) => {
                    let n = cached.len();
                    let v = copy_range(cached.as_slice(), 0, n);
                    proof {
                        assert(self.cache@.contains_key(start));
                        assert(v@ =~= self.cache@[start]@);
                    }
                    return Ok(v);
                },
                None => {},
            }
            let off = (start - 0x8800_0000) as usize;
            if off > self.rom.len() {
                return Err(MapError::OutOfRange);
            }
            let n = self.rom.len() - off;
            let tail = copy_range(self.rom.as_slice(), off, n);
            proof {
                assert(tail@ =~= self.rom@.skip(off as int));
            }
            let decompressed = match unlz77(tail.as_slice()) {
                Ok(d) => d,
                Err(e) => {
                    return Err(MapError::BadCompressedData);
                },
            };
            if decompressed.len() < 4 {
                return Err(MapError::BadCompressedData);
            }
            let body_len = decompressed.len() - 4;
            let body = copy_range(decompressed.as_slice(), 4, body_len);
            proof {
                assert(body@ =~= decompressed@.skip(4));
            }
            let result = copy_range(body.as_slice(), 0, body_len);
            proof {
                assert(result@ =~= body@);
            }
            self.cache.insert(start, body);
            Ok(result)
        } else {
            Err(MapError::OutOfRange)
        }
    }
}

proof fn lemma_lz_extend_len(out: Seq<u8>, off: int, count: int)
    requires
        count >= 0,
    ensures
        lz_extend(out, off, count).len() == out.len() + count,
    decreases count,
{
    if count > 0 {
        lemma_lz_extend_len(out.push(out[out.len() - off - 1]), off, count - 1);
    }
}

/// Extending by one more byte appends the byte `off + 1` back from the end
/// of the current extension.
proof fn lemma_lz_extend_unfold(out: Seq<u8>, off: int, count: int)
    requires
        count >= 0,
        0 <= off < out.len(),
    ensures
        lz_extend(out, off, count + 1) == lz_extend(out, off, count).push(
            lz_extend(out, off, count)[lz_extend(out, off, count).len() - off - 1],
        ),
    decreases count,
{
    lemma_lz_extend_len(out, off, count);
    let out1 = out.push(out[out.len() - off - 1]);
    if count == 0 {
        assert(lz_extend(out, off, 1) == lz_extend(out1, off, 0));
        assert(lz_extend(out1, off, 0) == out1);
        assert(lz_extend(out, off, 0) == out);
    } else {
        lemma_lz_extend_unfold(out1, off, count - 1);
        assert(lz_extend(out, off, count + 1) == lz_extend(out1, off, count));
        assert(lz_extend(out, off, count) == lz_extend(out1, off, count - 1));
        lemma_lz_extend_len(out1, off, count - 1);
    }
}

} // verus!
