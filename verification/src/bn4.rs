//! The fourth title's save layout: a shifted, masked buffer whose variant and
//! region are recovered from the difference between the stored and the
//! computed checksum.

use vstd::prelude::*;

use crate::bytes::{le32, le32_bytes, read_u16_le, read_u32_le};
use crate::save::{
    bytes_match, compute_save_raw_checksum, copy_range, lemma_raw_checksum_covers_first, mask_save,
    masked, spec_raw_checksum, Chip, NavicustPart, PatchCard, SaveError,
};

verus! {

pub const SAVE_SIZE: usize = 0x73d2;

pub const MASK_OFFSET: usize = 0x1554;

pub const GAME_NAME_OFFSET: usize = 0x2208;

pub const CHECKSUM_OFFSET: usize = 0x21e8;

pub const SHIFT_OFFSET: usize = 0x1550;

pub const EREADER_NAME_OFFSET: usize = 0x1772;

pub const EREADER_NAME_SIZE: usize = 0x10;

pub const EREADER_DESCRIPTION_OFFSET: usize = 0x0522;

pub const EREADER_DESCRIPTION_SIZE: usize = 0x5c;

/// How many distinct navicust part kinds and variants the title has.
pub const NUM_NAVICUST_PARTS: usize = 26;

pub const NUM_NAVICUST_VARIANTS: usize = 4;

pub const NUM_PATCH_CARD4S: usize = 133;

pub const NUM_CHIPS: usize = 389;

#[derive(PartialEq, Eq, Structural, Debug, Copy, Clone)]
pub enum Variant {
    BlueMoon,
    RedSun,
}

#[derive(PartialEq, Eq, Structural, Debug, Copy, Clone)]
pub struct Region {
    pub jp: bool,
    pub us: bool,
}

/// The checksum constant the title adds for each variant; recovering it from
/// a save identifies the variant.
pub open spec fn spec_checksum_start(variant: Variant) -> u32 {
    match variant {
        Variant::RedSun => 0x16,
        Variant::BlueMoon => 0x22,
    }
}

pub fn checksum_start_for_variant(variant: Variant) -> (r: u32)
    ensures
        r == spec_checksum_start(variant),
{
    match variant {
        Variant::RedSun => 0x16,
        Variant::BlueMoon => 0x22,
    }
}

#[derive(PartialEq, Eq, Structural, Debug, Clone, Copy)]
pub struct GameInfo {
    pub variant: Variant,
    pub region: Region,
}

/// The stored game name of every save this title writes.
pub open spec fn spec_game_name() -> Seq<u8> {
    seq![
        0x52u8,
        0x4fu8,
        0x43u8,
        0x4bu8,
        0x4du8,
        0x41u8,
        0x4eu8,
        0x45u8,
        0x58u8,
        0x45u8,
        0x34u8,
        0x20u8,
        0x32u8,
        0x30u8,
        0x30u8,
        0x33u8,
        0x31u8,
        0x30u8,
        0x32u8,
        0x32u8,
    ]
}

fn game_name_bytes() -> (r: Vec<u8>)
    ensures
        r@ == spec_game_name(),
{
    let r: Vec<u8> = vec![
        0x52u8, 0x4fu8, 0x43u8, 0x4bu8, 0x4du8, 0x41u8, 0x4eu8, 0x45u8, 0x58u8, 0x45u8, 0x34u8,
        0x20u8, 0x32u8, 0x30u8, 0x30u8, 0x33u8, 0x31u8, 0x30u8, 0x32u8, 0x32u8,
    ];
    proof {
        assert(r@ =~= spec_game_name());
    }
    r
}

/// Every way reading a save can come out, over the masked bytes.
pub enum Parse {
    TooSmall,
    BadShift(int),
    BadName(Seq<u8>),
    /// Stored checksum, raw checksum, shift, and which recovery attempt
    /// failed: zero when the stored checksum was not below the raw one, one
    /// after the region-adjusted retry.
    BadChecksum(u32, u32, int, int),
    Valid(int, GameInfo),
}

/// The raw checksum of the masked buffer at the shifted checksum offset.
pub open spec fn raw_of(m: Seq<u8>, shift: int) -> int {
    spec_raw_checksum(m, shift + CHECKSUM_OFFSET)
}

/// The region a recovered variant is paired with: a leading zero byte means
/// the save plays in both regions.
pub open spec fn spec_region(m: Seq<u8>, base_jp: bool) -> Region {
    if m[0] == 0 {
        Region { us: true, jp: true }
    } else if base_jp {
        Region { us: false, jp: true }
    } else {
        Region { us: true, jp: false }
    }
}

/// What reading a save yields: size, shift, game-name and checksum checks in
/// that order; the difference between the stored and the raw checksum names
/// the variant, retried once with the region adjustment.
pub open spec fn spec_parse(s: Seq<u8>) -> Parse {
    if s.len() < SAVE_SIZE {
        Parse::TooSmall
    } else {
        let m = masked(s.subrange(0, SAVE_SIZE as int), MASK_OFFSET as int);
        let shift = le32(m.subrange(SHIFT_OFFSET as int, SHIFT_OFFSET + 4)) as int;
        if shift > 0x1fc || shift % 4 != 0 {
            Parse::BadShift(shift)
        } else if m.subrange(shift + GAME_NAME_OFFSET, shift + GAME_NAME_OFFSET + 20)
            != spec_game_name() {
            Parse::BadName(m.subrange(shift + GAME_NAME_OFFSET, shift + GAME_NAME_OFFSET + 20))
        } else {
            let expected = le32(m.subrange(shift + CHECKSUM_OFFSET, shift + CHECKSUM_OFFSET + 4));
            let raw = raw_of(m, shift);
            if expected >= raw {
                if expected - raw == spec_checksum_start(Variant::RedSun) {
                    Parse::Valid(
                        shift,
                        GameInfo { variant: Variant::RedSun, region: spec_region(m, false) },
                    )
                } else if expected - raw == spec_checksum_start(Variant::BlueMoon) {
                    Parse::Valid(
                        shift,
                        GameInfo { variant: Variant::BlueMoon, region: spec_region(m, false) },
                    )
                } else {
                    Parse::BadChecksum(expected, raw as u32, shift, 0)
                }
            } else {
                let adjusted = raw - m[0];
                if expected >= adjusted && expected - adjusted == spec_checksum_start(
                    Variant::RedSun,
                ) {
                    Parse::Valid(
                        shift,
                        GameInfo { variant: Variant::RedSun, region: spec_region(m, true) },
                    )
                } else if expected >= adjusted && expected - adjusted == spec_checksum_start(
                    Variant::BlueMoon,
                ) {
                    Parse::Valid(
                        shift,
                        GameInfo { variant: Variant::BlueMoon, region: spec_region(m, true) },
                    )
                } else {
                    Parse::BadChecksum(expected, raw as u32, shift, 1)
                }
            }
        }
    }
}

/// A validated save: the masked buffer, its shift, and the recovered game
/// identity.
pub struct Save {
    pub buf: Vec<u8>,
    pub shift: usize,
    pub game_info: GameInfo,
}

impl Save {
    pub open spec fn wf(self) -> bool {
        &&& self.buf@.len() == SAVE_SIZE
        &&& self.shift <= 0x1fc
        &&& self.shift % 4 == 0
    }

    /// Reads and validates a stored save.
    pub fn new(buf: &[u8]) -> (r: Result<Save, SaveError>)
        ensures
            match r {
                Ok(s) => {
                    &&& s.wf()
                    &&& spec_parse(buf@) == Parse::Valid(s.shift as int, s.game_info)
                    &&& s.buf@ == masked(buf@.subrange(0, SAVE_SIZE as int), MASK_OFFSET as int)
                },
                Err(SaveError::InvalidSize(n)) => spec_parse(buf@) == Parse::TooSmall && n == buf@.len(),
                Err(SaveError::InvalidShift(sh)) => spec_parse(buf@) == Parse::BadShift(sh as int),
                Err(SaveError::InvalidGameName(v)) => spec_parse(buf@) == Parse::BadName(v@),
                Err(SaveError::ChecksumMismatch { expected, actual, shift, attempt }) => {
                    &&& expected@.len() == 1
                    &&& spec_parse(buf@) == Parse::BadChecksum(
                        expected@[0],
                        actual,
                        shift as int,
                        attempt as int,
                    )
                },
            },
    {
        if buf.len() < SAVE_SIZE {
            return Err(SaveError::InvalidSize(buf.len()));
        }
        let mut b = copy_range(buf, 0, SAVE_SIZE);
        mask_save(&mut b, MASK_OFFSET);
        let shift32 = read_u32_le(b.as_slice(), SHIFT_OFFSET);
        let shift = shift32 as usize;
        if shift > 0x1fc || shift % 4 != 0 {
            return Err(SaveError::InvalidShift(shift));
        }
        if !bytes_match(b.as_slice(), shift + GAME_NAME_OFFSET, game_name_bytes().as_slice()) {
            let seen = copy_range(b.as_slice(), shift + GAME_NAME_OFFSET, 20);
            return Err(SaveError::InvalidGameName(seen));
        }
        let expected = read_u32_le(b.as_slice(), shift + CHECKSUM_OFFSET);
        let raw = compute_raw_checksum(b.as_slice(), shift);
        let first = b[0];
        let (variant, base_jp) = if expected >= raw {
            let d = expected - raw;
            if d == 0x16 {
                (Variant::RedSun, false)
            } else {
                if d == 0x22 {
                    (Variant::BlueMoon, false)
                } else {
                    return Err(
                        SaveError::ChecksumMismatch {
                            expected: vec![expected],
                            actual: raw,
                            shift,
                            attempt: 0,
                        },
                    );
                }
            }
        } else {
            proof {
                lemma_raw_checksum_covers_first(b@, shift + CHECKSUM_OFFSET);
            }
            let adjusted = raw - first as u32;
            if expected >= adjusted && expected - adjusted == 0x16 {
                (Variant::RedSun, true)
            } else {
                if expected >= adjusted && expected - adjusted == 0x22 {
                    (Variant::BlueMoon, true)
                } else {
                    return Err(
                        SaveError::ChecksumMismatch {
                            expected: vec![expected],
                            actual: raw,
                            shift,
                            attempt: 1,
                        },
                    );
                }
            }
        };
        let region = if first == 0 {
            Region { us: true, jp: true }
        } else if base_jp {
            Region { us: false, jp: true }
        } else {
            Region { us: true, jp: false }
        };
        Ok(Save { buf: b, shift, game_info: GameInfo { variant, region } })
    }

    /// Accepts working memory as a save: same size and shift checks, but the
    /// buffer is unmasked and the identity is supplied by the caller.
    pub fn from_wram(buf: &[u8], game_info: GameInfo) -> (r: Result<Save, SaveError>)
        ensures
            match r {
                Ok(s) => {
                    &&& s.wf()
                    &&& buf@.len() >= SAVE_SIZE
                    &&& s.buf@ == buf@.subrange(0, SAVE_SIZE as int)
                    &&& s.shift as int == le32(
                        buf@.subrange(SHIFT_OFFSET as int, SHIFT_OFFSET + 4),
                    )
                    &&& s.game_info == game_info
                },
                Err(SaveError::InvalidSize(n)) => buf@.len() < SAVE_SIZE && n == buf@.len(),
                Err(SaveError::InvalidShift(sh)) => {
                    &&& buf@.len() >= SAVE_SIZE
                    &&& sh as int == le32(buf@.subrange(SHIFT_OFFSET as int, SHIFT_OFFSET + 4))
                    &&& (sh > 0x1fc || sh % 4 != 0)
                },
                _ => false,
            },
    {
        if buf.len() < SAVE_SIZE {
            return Err(SaveError::InvalidSize(buf.len()));
        }
        let b = copy_range(buf, 0, SAVE_SIZE);
        let shift32 = read_u32_le(b.as_slice(), SHIFT_OFFSET);
        let shift = shift32 as usize;
        if shift > 0x1fc || shift % 4 != 0 {
            return Err(SaveError::InvalidShift(shift));
        }
        proof {
            assert(b@.subrange(SHIFT_OFFSET as int, SHIFT_OFFSET + 4) =~= buf@.subrange(
                SHIFT_OFFSET as int,
                SHIFT_OFFSET + 4,
            ));
        }
        Ok(Save { buf: b, shift, game_info })
    }

    /// The checksum stored in the save.
    pub fn checksum(&self) -> (r: u32)
        requires
            self.wf(),
        ensures
            r == le32(
                self.buf@.subrange(
                    self.shift + CHECKSUM_OFFSET,
                    self.shift + CHECKSUM_OFFSET + 4,
                ),
            ),
    {
        read_u32_le(self.buf.as_slice(), self.shift + CHECKSUM_OFFSET)
    }

    /// What the stored checksum should be for this buffer and identity.
    pub open spec fn spec_computed_checksum(self) -> int {
        raw_of(self.buf@, self.shift as int) + spec_checksum_start(self.game_info.variant) - (
        if self.game_info.region == (Region { us: false, jp: true }) {
            self.buf@[0] as int
        } else {
            0
        })
    }

    /// Recomputes the checksum from the buffer and the game identity.
    pub fn compute_checksum(&self) -> (r: u32)
        requires
            self.wf(),
        ensures
            r == self.spec_computed_checksum(),
    {
        proof {
            lemma_raw_checksum_covers_first(self.buf@, self.shift + CHECKSUM_OFFSET);
            crate::save::lemma_byte_sum_bounds(self.buf@);
            crate::save::lemma_byte_sum_bounds(
                self.buf@.subrange(self.shift + CHECKSUM_OFFSET, self.shift + CHECKSUM_OFFSET + 4),
            );
        }
        let raw = compute_raw_checksum(self.buf.as_slice(), self.shift);
        let start = checksum_start_for_variant(self.game_info.variant);
        let jp_only = !self.game_info.region.us && self.game_info.region.jp;
        if jp_only {
            raw + start - self.buf[0] as u32
        } else {
            raw + start
        }
    }

    pub fn shift(&self) -> (r: usize)
        ensures
            r == self.shift,
    {
        self.shift
    }

    pub fn game_info(&self) -> (r: &GameInfo)
        ensures
            r == self.game_info,
    {
        &self.game_info
    }

    /// The raw working-memory bytes of the save.
    pub fn as_raw_wram(&self) -> (r: &Vec<u8>)
        ensures
            r@ == self.buf@,
    {
        &self.buf
    }

    /// A full SRAM dump of this save: its bytes re-masked at the front of a
    /// `0x10000`-byte image.
    pub fn to_sram_dump(&self) -> (r: Vec<u8>)
        requires
            self.wf(),
        ensures
            r@.len() == 0x10000,
            r@.subrange(0, SAVE_SIZE as int) == crate::save::masked(
                self.buf@,
                MASK_OFFSET as int,
            ),
            forall|k: int| SAVE_SIZE <= k < 0x10000 ==> r@[k] == 0,
    {
        crate::save::sram_dump(self.buf.as_slice(), 0, MASK_OFFSET)
    }

    /// Stores the computed checksum back into the buffer.
    pub fn rebuild_checksum(&mut self)
        requires
            old(self).wf(),
        ensures
            final(self).wf(),
            final(self).shift == old(self).shift,
            final(self).game_info == old(self).game_info,
            final(self).buf@.subrange(CHECKSUM_OFFSET as int, CHECKSUM_OFFSET + 4) == le32_bytes(
                old(self).spec_computed_checksum() as u32,
            ),
            forall|k: int|
                0 <= k < SAVE_SIZE && !(CHECKSUM_OFFSET <= k < CHECKSUM_OFFSET + 4) ==> final(self).buf@[k] == old(self).buf@[k],
    {
        let ck = self.compute_checksum();
        self.buf[CHECKSUM_OFFSET] = (ck & 0xff) as u8;
        self.buf[CHECKSUM_OFFSET + 1] = ((ck >> 8) & 0xff) as u8;
        self.buf[CHECKSUM_OFFSET + 2] = ((ck >> 16) & 0xff) as u8;
        self.buf[CHECKSUM_OFFSET + 3] = ((ck >> 24) & 0xff) as u8;
        proof {
            assert(final(self).buf@.subrange(CHECKSUM_OFFSET as int, CHECKSUM_OFFSET + 4)
                =~= le32_bytes(old(self).spec_computed_checksum() as u32));
        }
    }
}

/// The raw byte-sum checksum at the shifted checksum offset.
pub fn compute_raw_checksum(buf: &[u8], shift: usize) -> (r: u32)
    requires
        shift + CHECKSUM_OFFSET + 4 <= buf@.len(),
        255 * buf@.len() <= u32::MAX,
    ensures
        r == raw_of(buf@, shift as int),
{
    compute_save_raw_checksum(buf, shift + CHECKSUM_OFFSET)
}

/// Read-only access to the equipped chip folders.
pub struct ChipsView<'a> {
    pub save: &'a Save,
}

impl<'a> ChipsView<'a> {
    pub fn num_folders(&self) -> (r: usize)
        ensures
            r == 3,
    {
        3
    }

    pub fn equipped_folder_index(&self) -> (r: usize)
        requires
            self.save.wf(),
        ensures
            r == self.save.buf@[self.save.shift + 0x2132],
    {
        self.save.buf[self.save.shift + 0x2132] as usize
    }

    /// The folder's regular chip slot, if one is set.
    pub fn regular_chip_index(&self, folder_index: usize) -> (r: Option<usize>)
        requires
            self.save.wf(),
            folder_index < 3,
        ensures
            ({
                let idx = self.save.buf@[self.save.shift + 0x214d + folder_index];
                r == (if idx < 30 {
                    Some(idx as usize)
                } else {
                    None::<usize>
                })
            }),
    {
        let idx = self.save.buf[self.save.shift + 0x214d + folder_index];
        if idx >= 30 {
            None
        } else {
            Some(idx as usize)
        }
    }

    pub fn tag_chip_indexes(&self, _folder_index: usize) -> (r: Option<[usize; 2]>)
        ensures
            r is None,
    {
        None
    }

    /// One slot of one folder, decoded from its packed chip word.
    pub fn chip(&self, folder_index: usize, chip_index: usize) -> (r: Option<Chip>)
        requires
            self.save.wf(),
        ensures
            ({
                let off = self.save.shift + 0x262c + folder_index * 60 + chip_index * 2;
                let raw = crate::bytes::le16(self.save.buf@.subrange(off as int, off + 2));
                if folder_index >= 3 || chip_index >= 30 || raw >> 9 >= 27 {
                    r is None
                } else {
                    r == Some(
                        Chip {
                            id: (raw & 0x1ff) as usize,
                            code: crate::save::chip_code_char((raw >> 9) as int),
                        },
                    )
                }
            }),
    {
        if folder_index >= 3 || chip_index >= 30 {
            return None;
        }
        let off = self.save.shift + 0x262c + folder_index * 60 + chip_index * 2;
        let raw = read_u16_le(self.save.buf.as_slice(), off);
        crate::save::decode_chip(raw)
    }
}

/// Read-only access to the navicust grid and its installed parts.
pub struct NavicustView<'a> {
    pub save: &'a Save,
}

impl<'a> NavicustView<'a> {
    pub fn width(&self) -> (r: usize)
        ensures
            r == 5,
    {
        5
    }

    pub fn height(&self) -> (r: usize)
        ensures
            r == 5,
    {
        5
    }

    pub fn count(&self) -> (r: usize)
        ensures
            r == 25,
    {
        25
    }

    /// The part installed in slot `i`, decoded from its eight raw bytes.
    pub fn navicust_part(&self, i: usize) -> (r: Option<NavicustPart>)
        requires
            self.save.wf(),
        ensures
            ({
                let off = self.save.shift + 0x4564 + i * 8;
                let iv = self.save.buf@[off as int];
                if i >= 25 || iv == 0 {
                    r is None
                } else {
                    r == Some(
                        NavicustPart {
                            id: (iv / 4) as usize,
                            variant: (iv % 4) as usize,
                            col: self.save.buf@[off + 2],
                            row: self.save.buf@[off + 3],
                            rot: self.save.buf@[off + 4],
                            compressed: self.save.buf@[off + 5] != 0,
                        },
                    )
                }
            }),
    {
        if i >= 25 {
            return None;
        }
        let off = self.save.shift + 0x4564 + i * 8;
        let iv = self.save.buf[off];
        if iv == 0 {
            return None;
        }
        Some(
            NavicustPart {
                id: (iv / 4) as usize,
                variant: (iv % 4) as usize,
                col: self.save.buf[off + 2],
                row: self.save.buf[off + 3],
                rot: self.save.buf[off + 4],
                compressed: self.save.buf[off + 5] != 0,
            },
        )
    }
}

/// Write access to the navicust parts.
pub struct NavicustViewMut<'a> {
    pub save: &'a mut Save,
}

impl<'a> NavicustViewMut<'a> {
    /// Installs a part in slot `i`; refused when the part or slot is out of
    /// range. On success exactly the slot's eight bytes are rewritten.
    pub fn set_navicust_part(&mut self, i: usize, part: NavicustPart) -> (r: bool)
        requires
            old(self).save.wf(),
        ensures
            final(self).save.wf(),
            final(self).save.shift == old(self).save.shift,
            final(self).save.game_info == old(self).save.game_info,
            r <==> (part.id < NUM_NAVICUST_PARTS && part.variant < NUM_NAVICUST_VARIANTS && i
                < 25),
            !r ==> final(self).save.buf@ == old(self).save.buf@,
            r ==> ({
                let off = old(self).save.shift + 0x4564 + i * 8;
                &&& final(self).save.buf@ == old(self).save.buf@.update(
                    off as int,
                    (part.id * 4 + part.variant) as u8,
                ).update(off + 1, 0u8).update(off + 2, part.col).update(off + 3, part.row).update(
                    off + 4,
                    part.rot,
                ).update(
                    off + 5,
                    if part.compressed {
                        1u8
                    } else {
                        0u8
                    },
                ).update(off + 6, 0u8).update(off + 7, 0u8)
            }),
    {
        if part.id >= NUM_NAVICUST_PARTS || part.variant >= NUM_NAVICUST_VARIANTS || i >= 25 {
            return false;
        }
        let off = self.save.shift + 0x4564 + i * 8;
        self.save.buf[off] = (part.id * 4 + part.variant) as u8;
        self.save.buf[off + 1] = 0;
        self.save.buf[off + 2] = part.col;
        self.save.buf[off + 3] = part.row;
        self.save.buf[off + 4] = part.rot;
        self.save.buf[off + 5] = if part.compressed {
            1
        } else {
            0
        };
        self.save.buf[off + 6] = 0;
        self.save.buf[off + 7] = 0;
        true
    }

    /// Clears the materialized navicust grid: its `0x24` bytes are zeroed.
    pub fn clear_materialized(&mut self)
        requires
            old(self).save.wf(),
        ensures
            final(self).save.wf(),
            final(self).save.shift == old(self).save.shift,
            final(self).save.game_info == old(self).save.game_info,
            forall|k: int|
                0 <= k < 0x24 ==> #[trigger] final(self).save.buf@[old(self).save.shift + 0x4540
                    + k] == 0,
            forall|k: int|
                0 <= k < SAVE_SIZE && !(old(self).save.shift + 0x4540 <= k < old(self).save.shift
                    + 0x4540 + 0x24) ==> final(self).save.buf@[k] == old(self).save.buf@[k],
    {
        let base = self.save.shift + 0x4540;
        let mut i: usize = 0;
        while i < 0x24
            invariant
                i <= 0x24,
                self.save.buf@.len() == SAVE_SIZE,
                self.save.shift == old(self).save.shift,
                self.save.game_info == old(self).save.game_info,
                base == old(self).save.shift + 0x4540,
                base + 0x24 <= SAVE_SIZE,
                forall|k: int| 0 <= k < i ==> #[trigger] self.save.buf@[base + k] == 0,
                forall|k: int|
                    0 <= k < SAVE_SIZE && !(base <= k < base + i) ==> self.save.buf@[k] == old(
                        self,
                    ).save.buf@[k],
            decreases 0x24 - i,
        {
            self.save.buf[base + i] = 0;
            i = i + 1;
        }
    }
}

/// Read-only access to the auto-battle statistics.
pub struct AutoBattleDataView<'a> {
    pub save: &'a Save,
}

impl<'a> AutoBattleDataView<'a> {
    /// How often a chip was used.
    pub fn chip_use_count(&self, id: usize) -> (r: Option<usize>)
        requires
            self.save.wf(),
        ensures
            ({
                let off = 0x6f50 + id * 2;
                if id >= NUM_CHIPS {
                    r is None
                } else {
                    r == Some(
                        crate::bytes::le16(self.save.buf@.subrange(off as int, off + 2)) as usize,
                    )
                }
            }),
    {
        if id >= NUM_CHIPS {
            return None;
        }
        Some(read_u16_le(self.save.buf.as_slice(), 0x6f50 + id * 2) as usize)
    }

    /// How often a chip was used in the secondary tally.
    pub fn secondary_chip_use_count(&self, id: usize) -> (r: Option<usize>)
        requires
            self.save.wf(),
        ensures
            ({
                let off = 0x1bb0 + id * 2;
                if id >= NUM_CHIPS {
                    r is None
                } else {
                    r == Some(
                        crate::bytes::le16(self.save.buf@.subrange(off as int, off + 2)) as usize,
                    )
                }
            }),
    {
        if id >= NUM_CHIPS {
            return None;
        }
        Some(read_u16_le(self.save.buf.as_slice(), 0x1bb0 + id * 2) as usize)
    }
}

/// Write access to the auto-battle statistics.
pub struct AutoBattleDataViewMut<'a> {
    pub save: &'a mut Save,
}

impl<'a> AutoBattleDataViewMut<'a> {
    /// Stores a chip's use count.
    pub fn set_chip_use_count(&mut self, id: usize, count: usize) -> (r: bool)
        requires
            old(self).save.wf(),
            count <= u16::MAX,
        ensures
            final(self).save.wf(),
            final(self).save.shift == old(self).save.shift,
            final(self).save.game_info == old(self).save.game_info,
            r <==> id < NUM_CHIPS,
            !r ==> final(self).save.buf@ == old(self).save.buf@,
            r ==> final(self).save.buf@ == old(self).save.buf@.update(
                0x6f50 + id * 2,
                (count as u16 & 0xff) as u8,
            ).update(0x6f50 + id * 2 + 1, (count as u16 >> 8) as u8),
    {
        if id >= NUM_CHIPS {
            return false;
        }
        let word = count as u16;
        self.save.buf[0x6f50 + id * 2] = (word & 0xff) as u8;
        self.save.buf[0x6f50 + id * 2 + 1] = (word >> 8) as u8;
        true
    }

    /// Clears the materialized auto-battle data: every one of its 42 slot
    /// words becomes the empty marker.
    pub fn clear_materialized(&mut self)
        requires
            old(self).save.wf(),
        ensures
            final(self).save.wf(),
            final(self).save.shift == old(self).save.shift,
            final(self).save.game_info == old(self).save.game_info,
            forall|k: int|
                0 <= k < 84 ==> #[trigger] final(self).save.buf@[old(self).save.shift + 0x5064
                    + k] == 0xff,
            forall|k: int|
                0 <= k < SAVE_SIZE && !(old(self).save.shift + 0x5064 <= k < old(self).save.shift
                    + 0x5064 + 84) ==> final(self).save.buf@[k] == old(self).save.buf@[k],
    {
        let base = self.save.shift + 0x5064;
        let mut i: usize = 0;
        while i < 84
            invariant
                i <= 84,
                self.save.buf@.len() == SAVE_SIZE,
                self.save.shift == old(self).save.shift,
                self.save.game_info == old(self).save.game_info,
                base == old(self).save.shift + 0x5064,
                base + 84 <= SAVE_SIZE,
                forall|k: int| 0 <= k < i ==> #[trigger] self.save.buf@[base + k] == 0xff,
                forall|k: int|
                    0 <= k < SAVE_SIZE && !(base <= k < base + i) ==> self.save.buf@[k] == old(
                        self,
                    ).save.buf@[k],
            decreases 84 - i,
        {
            self.save.buf[base + i] = 0xff;
            i = i + 1;
        }
    }

    /// Stores a chip's secondary use count.
    pub fn set_secondary_chip_use_count(&mut self, id: usize, count: usize) -> (r: bool)
        requires
            old(self).save.wf(),
            count <= u16::MAX,
        ensures
            final(self).save.wf(),
            final(self).save.shift == old(self).save.shift,
            final(self).save.game_info == old(self).save.game_info,
            r <==> id < NUM_CHIPS,
            !r ==> final(self).save.buf@ == old(self).save.buf@,
            r ==> final(self).save.buf@ == old(self).save.buf@.update(
                0x1bb0 + id * 2,
                (count as u16 & 0xff) as u8,
            ).update(0x1bb0 + id * 2 + 1, (count as u16 >> 8) as u8),
    {
        if id >= NUM_CHIPS {
            return false;
        }
        let word = count as u16;
        self.save.buf[0x1bb0 + id * 2] = (word & 0xff) as u8;
        self.save.buf[0x1bb0 + id * 2 + 1] = (word >> 8) as u8;
        true
    }
}

/// Read-only access to the installed patch cards.
pub struct PatchCard4sView<'a> {
    pub save: &'a Save,
}

impl<'a> PatchCard4sView<'a> {
    /// The card in a slot: the enabled bank is consulted first, then the
    /// disabled one.
    pub fn patch_card(&self, slot: usize) -> (r: Option<PatchCard>)
        requires
            self.save.wf(),
        ensures
            ({
                let enabled_id = self.save.buf@[self.save.shift + 0x464c + slot];
                let disabled_id = self.save.buf@[self.save.shift + 0x464c + 7 + slot];
                if slot > 6 {
                    r is None
                } else if enabled_id < NUM_PATCH_CARD4S {
                    r == Some(PatchCard { id: enabled_id as usize, enabled: true })
                } else if disabled_id < NUM_PATCH_CARD4S {
                    r == Some(PatchCard { id: disabled_id as usize, enabled: false })
                } else {
                    r is None
                }
            }),
    {
        if slot > 6 {
            return None;
        }
        let id = self.save.buf[self.save.shift + 0x464c + slot] as usize;
        if id < NUM_PATCH_CARD4S {
            return Some(PatchCard { id, enabled: true });
        }
        let id = self.save.buf[self.save.shift + 0x464c + 7 + slot] as usize;
        if id < NUM_PATCH_CARD4S {
            return Some(PatchCard { id, enabled: false });
        }
        None
    }
}

/// Write access to the installed patch cards.
pub struct PatchCard4sViewMut<'a> {
    pub save: &'a mut Save,
}

impl<'a> PatchCard4sViewMut<'a> {
    /// Clears the slot in both banks, then writes the card into the bank its
    /// enabled flag selects. A card id of zero or out of range is refused.
    pub fn set_patch_card(&mut self, slot: usize, patch_card: Option<PatchCard>) -> (r: bool)
        requires
            old(self).save.wf(),
        ensures
            final(self).save.wf(),
            final(self).save.shift == old(self).save.shift,
            final(self).save.game_info == old(self).save.game_info,
            r <==> (slot <= 6 && match patch_card {
                Some(p) => 0 < p.id < NUM_PATCH_CARD4S,
                None => true,
            }),
            !r ==> final(self).save.buf@ == old(self).save.buf@,
            r ==> ({
                let base = old(self).save.shift + 0x464c;
                let cleared = old(self).save.buf@.update(base + slot, 0xffu8).update(
                    base + 7 + slot,
                    0xffu8,
                );
                final(self).save.buf@ == (match patch_card {
                    Some(p) => cleared.update(
                        base + (if p.enabled {
                            0int
                        } else {
                            7int
                        }) + slot,
                        p.id as u8,
                    ),
                    None => cleared,
                })
            }),
    {
        if slot > 6 {
            return false;
        }
        match &patch_card {
            Some(p) => {
                if p.id == 0 || p.id >= NUM_PATCH_CARD4S {
                    return false;
                }
            },
            None => {},
        }
        let base = self.save.shift + 0x464c;
        self.save.buf[base + slot] = 0xff;
        self.save.buf[base + 7 + slot] = 0xff;
        match patch_card {
            Some(p) => {
                let bank: usize = if p.enabled {
                    0
                } else {
                    7
                };
                self.save.buf[base + bank + slot] = p.id as u8;
            },
            None => {},
        }
        true
    }
}

} // verus!
