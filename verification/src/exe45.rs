//! The spin-off title's save layout: a masked buffer, two accepted stored
//! game names, and a fixed checksum constant.

use vstd::prelude::*;

use crate::bytes::{le16, le32, read_u16_le, read_u32_le};
use crate::save::{
    bytes_match, chip_code_char, compute_save_raw_checksum, copy_range, decode_chip, mask_save,
    masked, spec_raw_checksum, Chip, SaveError,
};

verus! {

pub const SAVE_SIZE: usize = 0xc7a8;

pub const MASK_OFFSET: usize = 0x3c84;

pub const GAME_NAME_OFFSET: usize = 0x4ba8;

pub const CHECKSUM_OFFSET: usize = 0x4b88;

/// The two stored game names the title writes: the first build and the
/// revised one.
pub open spec fn spec_game_name_a() -> Seq<u8> {
    seq![
        0x52u8,
        0x4fu8,
        0x43u8,
        0x4bu8,
        0x4du8,
        0x41u8,
        0x4eu8,
        0x45u8,
        0x58u8,
        0x45u8,
        0x34u8,
        0x52u8,
        0x4fu8,
        0x20u8,
        0x30u8,
        0x34u8,
        0x30u8,
        0x36u8,
        0x30u8,
        0x37u8,
    ]
}

pub open spec fn spec_game_name_b() -> Seq<u8> {
    seq![
        0x52u8,
        0x4fu8,
        0x43u8,
        0x4bu8,
        0x4du8,
        0x41u8,
        0x4eu8,
        0x45u8,
        0x58u8,
        0x45u8,
        0x34u8,
        0x52u8,
        0x4fu8,
        0x20u8,
        0x30u8,
        0x34u8,
        0x31u8,
        0x32u8,
        0x31u8,
        0x37u8,
    ]
}

fn game_name_a() -> (r: Vec<u8>)
    ensures
        r@ == spec_game_name_a(),
{
    let r: Vec<u8> = vec![
        0x52u8, 0x4fu8, 0x43u8, 0x4bu8, 0x4du8, 0x41u8, 0x4eu8, 0x45u8, 0x58u8, 0x45u8, 0x34u8,
        0x52u8, 0x4fu8, 0x20u8, 0x30u8, 0x34u8, 0x30u8, 0x36u8, 0x30u8, 0x37u8,
    ];
    proof {
        assert(r@ =~= spec_game_name_a());
    }
    r
}

fn game_name_b() -> (r: Vec<u8>)
    ensures
        r@ == spec_game_name_b(),
{
    let r: Vec<u8> = vec![
        0x52u8, 0x4fu8, 0x43u8, 0x4bu8, 0x4du8, 0x41u8, 0x4eu8, 0x45u8, 0x58u8, 0x45u8, 0x34u8,
        0x52u8, 0x4fu8, 0x20u8, 0x30u8, 0x34u8, 0x31u8, 0x32u8, 0x31u8, 0x37u8,
    ];
    proof {
        assert(r@ =~= spec_game_name_b());
    }
    r
}

/// A validated save buffer.
pub struct Save {
    pub buf: Vec<u8>,
}

impl Save {
    pub open spec fn wf(self) -> bool {
        self.buf@.len() == SAVE_SIZE
    }

    /// What the stored checksum should be for this buffer.
    pub open spec fn spec_computed_checksum(self) -> int {
        spec_raw_checksum(self.buf@, CHECKSUM_OFFSET as int) + 0x38
    }

    /// Reads and validates a stored save: unmask, check the game name
    /// against the two accepted builds, and check the checksum.
    pub fn new(buf: &[u8]) -> (r: Result<Save, SaveError>)
        ensures
            match r {
                Ok(s) => {
                    &&& s.wf()
                    &&& buf@.len() >= SAVE_SIZE
                    &&& s.buf@ == masked(buf@.subrange(0, SAVE_SIZE as int), MASK_OFFSET as int)
                    &&& {
                        let name = s.buf@.subrange(
                            GAME_NAME_OFFSET as int,
                            GAME_NAME_OFFSET + 20,
                        );
                        name == spec_game_name_a() || name == spec_game_name_b()
                    }
                    &&& le32(s.buf@.subrange(CHECKSUM_OFFSET as int, CHECKSUM_OFFSET + 4))
                        == s.spec_computed_checksum()
                },
                Err(SaveError::InvalidSize(n)) => buf@.len() < SAVE_SIZE && n == buf@.len(),
                Err(SaveError::InvalidGameName(v)) => {
                    let m = masked(buf@.subrange(0, SAVE_SIZE as int), MASK_OFFSET as int);
                    let name = m.subrange(GAME_NAME_OFFSET as int, GAME_NAME_OFFSET + 20);
                    &&& buf@.len() >= SAVE_SIZE
                    &&& v@ == name
                    &&& name != spec_game_name_a() && name != spec_game_name_b()
                },
                Err(SaveError::ChecksumMismatch { expected, actual, shift, attempt }) => {
                    let m = masked(buf@.subrange(0, SAVE_SIZE as int), MASK_OFFSET as int);
                    &&& buf@.len() >= SAVE_SIZE
                    &&& actual == le32(m.subrange(CHECKSUM_OFFSET as int, CHECKSUM_OFFSET + 4))
                    &&& expected@.len() == 1
                    &&& expected@[0] == spec_raw_checksum(m, CHECKSUM_OFFSET as int) + 0x38
                    &&& actual != expected@[0]
                    &&& shift == 0 && attempt == 0
                },
                _ => false,
            },
    {
        if buf.len() < SAVE_SIZE {
            return Err(SaveError::InvalidSize(buf.len()));
        }
        let mut b = copy_range(buf, 0, SAVE_SIZE);
        mask_save(&mut b, MASK_OFFSET);
        let name_ok = bytes_match(b.as_slice(), GAME_NAME_OFFSET, game_name_a().as_slice())
            || bytes_match(b.as_slice(), GAME_NAME_OFFSET, game_name_b().as_slice());
        if !name_ok {
            let seen = copy_range(b.as_slice(), GAME_NAME_OFFSET, 20);
            return Err(SaveError::InvalidGameName(seen));
        }
        let save = Save { buf: b };
        let computed = save.compute_checksum();
        let stored = save.checksum();
        if stored != computed {
            return Err(
                SaveError::ChecksumMismatch {
                    actual: stored,
                    expected: vec![computed],
                    shift: 0,
                    attempt: 0,
                },
            );
        }
        Ok(save)
    }

    /// Accepts working memory as a save.
    pub fn from_wram(buf: &[u8]) -> (r: Result<Save, SaveError>)
        ensures
            match r {
                Ok(s) => {
                    &&& s.wf()
                    &&& buf@.len() >= SAVE_SIZE
                    &&& s.buf@ == buf@.subrange(0, SAVE_SIZE as int)
                },
                Err(SaveError::InvalidSize(n)) => buf@.len() < SAVE_SIZE && n == buf@.len(),
                _ => false,
            },
    {
        if buf.len() < SAVE_SIZE {
            return Err(SaveError::InvalidSize(buf.len()));
        }
        Ok(Save { buf: copy_range(buf, 0, SAVE_SIZE) })
    }

    /// The checksum stored in the save.
    pub fn checksum(&self) -> (r: u32)
        requires
            self.wf(),
        ensures
            r == le32(self.buf@.subrange(CHECKSUM_OFFSET as int, CHECKSUM_OFFSET + 4)),
    {
        read_u32_le(self.buf.as_slice(), CHECKSUM_OFFSET)
    }

    /// Recomputes the checksum from the buffer.
    pub fn compute_checksum(&self) -> (r: u32)
        requires
            self.wf(),
        ensures
            r == self.spec_computed_checksum(),
    {
        proof {
            crate::save::lemma_byte_sum_bounds(self.buf@);
            crate::save::lemma_byte_sum_bounds(
                self.buf@.subrange(CHECKSUM_OFFSET as int, CHECKSUM_OFFSET + 4),
            );
            crate::save::lemma_raw_checksum_covers_first(self.buf@, CHECKSUM_OFFSET as int);
        }
        let raw = compute_save_raw_checksum(self.buf.as_slice(), CHECKSUM_OFFSET);
        raw + 0x38
    }

    /// A full SRAM dump of this save: its bytes re-masked at the front of a
    /// `0x10000`-byte image.
    pub fn to_sram_dump(&self) -> (r: Vec<u8>)
        requires
            self.wf(),
        ensures
            r@.len() == 0x10000,
            r@.subrange(0, SAVE_SIZE as int) == masked(self.buf@, MASK_OFFSET as int),
            forall|k: int| SAVE_SIZE <= k < 0x10000 ==> r@[k] == 0,
    {
        crate::save::sram_dump(self.buf.as_slice(), 0, MASK_OFFSET)
    }

    /// Stores the computed checksum back into the buffer.
    pub fn rebuild_checksum(&mut self)
        requires
            old(self).wf(),
        ensures
            final(self).wf(),
            final(self).buf@.subrange(CHECKSUM_OFFSET as int, CHECKSUM_OFFSET + 4)
                == crate::bytes::le32_bytes(old(self).spec_computed_checksum() as u32),
            forall|k: int|
                0 <= k < SAVE_SIZE && !(CHECKSUM_OFFSET <= k < CHECKSUM_OFFSET + 4) ==> final(self).buf@[k] == old(self).buf@[k],
    {
        let ck = self.compute_checksum();
        self.buf[CHECKSUM_OFFSET] = (ck & 0xff) as u8;
        self.buf[CHECKSUM_OFFSET + 1] = ((ck >> 8) & 0xff) as u8;
        self.buf[CHECKSUM_OFFSET + 2] = ((ck >> 16) & 0xff) as u8;
        self.buf[CHECKSUM_OFFSET + 3] = ((ck >> 24) & 0xff) as u8;
        proof {
            assert(final(self).buf@.subrange(CHECKSUM_OFFSET as int, CHECKSUM_OFFSET + 4)
                =~= crate::bytes::le32_bytes(old(self).spec_computed_checksum() as u32));
        }
    }

    /// Which navi the save currently plays.
    pub fn current_navi(&self) -> (r: u8)
        requires
            self.wf(),
        ensures
            r == self.buf@[0x4ad1],
    {
        self.buf[0x4ad1]
    }
}

/// Read-only access to the single chip folder of the current navi.
pub struct ChipsView<'a> {
    pub save: &'a Save,
}

impl<'a> ChipsView<'a> {
    pub fn num_folders(&self) -> (r: usize)
        ensures
            r == 1,
    {
        1
    }

    pub fn equipped_folder_index(&self) -> (r: usize)
        ensures
            r == 0,
    {
        0
    }

    /// One slot of the current navi's folder.
    pub fn chip(&self, folder_index: usize, chip_index: usize) -> (r: Option<Chip>)
        requires
            self.save.wf(),
        ensures
            ({
                let off = 0x7500 + (self.save.buf@[0x4ad1] as int) * 60 + chip_index * 2;
                let raw = le16(self.save.buf@.subrange(off, off + 2));
                if folder_index >= 1 || chip_index >= 30 || raw >> 9 >= 27 {
                    r is None
                } else {
                    r == Some(
                        Chip {
                            id: (raw & 0x1ff) as usize,
                            code: chip_code_char((raw >> 9) as int),
                        },
                    )
                }
            }),
    {
        if folder_index >= 1 || chip_index >= 30 {
            return None;
        }
        let navi = self.save.buf[0x4ad1] as usize;
        let off = 0x7500 + navi * 60 + chip_index * 2;
        let raw = read_u16_le(self.save.buf.as_slice(), off);
        decode_chip(raw)
    }
}

/// Read-only access to the selected navi.
pub struct NaviView<'a> {
    pub save: &'a Save,
}

impl<'a> NaviView<'a> {
    pub fn navi(&self) -> (r: usize)
        requires
            self.save.wf(),
        ensures
            r == self.save.buf@[0x4ad1],
    {
        self.save.buf[0x4ad1] as usize
    }
}

} // verus!
