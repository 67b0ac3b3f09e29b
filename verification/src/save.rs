//! Common save-data machinery: the error taxonomy of the save accessors, the
//! byte mask applied to stored saves, and the raw byte-sum checksum shared by
//! every title's layout.

use vstd::prelude::*;

use crate::bytes::{le32, read_u32_le};

verus! {

/// Why raw bytes could not be accepted as a save.
#[derive(Clone, Debug, PartialEq, Eq)]
pub enum SaveError {
    /// The byte buffer is not at least the title's save size; carries the
    /// length seen.
    InvalidSize(usize),
    /// The stored shift word is out of range or unaligned; carries the shift
    /// seen.
    InvalidShift(usize),
    /// The stored game name is not one the title writes; carries the bytes
    /// seen.
    InvalidGameName(Vec<u8>),
    /// The stored checksum does not match the computed one.
    ChecksumMismatch { expected: Vec<u32>, actual: u32, shift: usize, attempt: usize },
}

/// The low byte of the mask word, XOR-applied to every byte of a stored save
/// outside the mask word itself.
pub open spec fn mask_byte(s: Seq<u8>, mask_offset: int) -> u8 {
    (le32(s.subrange(mask_offset, mask_offset + 4)) & 0xff) as u8
}

/// A save buffer with the stored mask applied: every byte XORed with the low
/// byte of the mask word, the mask word itself kept as it is.
pub open spec fn masked(s: Seq<u8>, mask_offset: int) -> Seq<u8> {
    let x = mask_byte(s, mask_offset);
    Seq::new(
        s.len(),
        |i: int|
            if mask_offset <= i < mask_offset + 4 {
                s[i]
            } else {
                s[i] ^ x
            },
    )
}

/// Applies the stored mask in place: XORs every byte with the low byte of
/// the mask word at `mask_offset`, leaving the mask word itself unchanged.
pub fn mask_save(buf: &mut Vec<u8>, mask_offset: usize)
    requires
        mask_offset + 4 <= old(buf)@.len(),
    ensures
        final(buf)@ == masked(old(buf)@, mask_offset as int),
{
    let mask = read_u32_le(buf.as_slice(), mask_offset);
    let x = (mask & 0xff) as u8;
    let n = buf.len();
    let mut i: usize = 0;
    while i < n
        invariant
            i <= n,
            n == old(buf)@.len(),
            mask_offset + 4 <= n,
            x == mask_byte(old(buf)@, mask_offset as int),
            buf@.len() == n,
            forall|k: int|
                0 <= k < i ==> buf@[k] == masked(old(buf)@, mask_offset as int)[k],
            forall|k: int| i <= k < n ==> buf@[k] == old(buf)@[k],
        decreases n - i,
    {
        if i < mask_offset || i >= mask_offset + 4 {
            let b = buf[i];
            buf[i] = b ^ x;
        }
        i = i + 1;
    }
    proof {
        assert(buf@ =~= masked(old(buf)@, mask_offset as int));
    }
}

/// Masking is an involution: the mask word is untouched, so applying the
/// mask twice restores every byte. A save written out masked reads back to
/// the same bytes.
pub proof fn lemma_mask_involution(s: Seq<u8>, mask_offset: int)
    requires
        0 <= mask_offset,
        mask_offset + 4 <= s.len(),
    ensures
        masked(masked(s, mask_offset), mask_offset) == s,
{
    let m1 = masked(s, mask_offset);
    assert(m1.subrange(mask_offset, mask_offset + 4) =~= s.subrange(
        mask_offset,
        mask_offset + 4,
    ));
    assert(mask_byte(m1, mask_offset) == mask_byte(s, mask_offset));
    let x = mask_byte(s, mask_offset);
    assert forall|i: int| 0 <= i < s.len() implies masked(m1, mask_offset)[i] == s[i] by {
        if !(mask_offset <= i < mask_offset + 4) {
            let b = s[i];
            assert((b ^ x) ^ x == b) by (bit_vector);
        }
    }
    assert(masked(m1, mask_offset) =~= s);
}

/// The sum of a byte sequence.
pub open spec fn byte_sum(s: Seq<u8>) -> int
    decreases s.len(),
{
    if s.len() == 0 {
        0
    } else {
        s[0] + byte_sum(s.drop_first())
    }
}

pub proof fn lemma_byte_sum_bounds(s: Seq<u8>)
    ensures
        0 <= byte_sum(s) <= 255 * s.len(),
    decreases s.len(),
{
    if s.len() > 0 {
        lemma_byte_sum_bounds(s.drop_first());
    }
}

proof fn lemma_byte_sum_snoc(s: Seq<u8>, b: u8)
    ensures
        byte_sum(s.push(b)) == byte_sum(s) + b,
    decreases s.len(),
{
    if s.len() == 0 {
        assert(s.push(b).drop_first() =~= Seq::<u8>::empty());
        assert(s.push(b)[0] == b);
        assert(byte_sum(s.push(b)) == b + byte_sum(Seq::<u8>::empty()));
    } else {
        assert(s.push(b).drop_first() =~= s.drop_first().push(b));
        assert(s.push(b)[0] == s[0]);
        lemma_byte_sum_snoc(s.drop_first(), b);
        assert(byte_sum(s.push(b)) == s[0] + byte_sum(s.drop_first().push(b)));
    }
}

/// A byte sum splits at any point.
pub proof fn lemma_byte_sum_split(s: Seq<u8>, k: int)
    requires
        0 <= k <= s.len(),
    ensures
        byte_sum(s) == byte_sum(s.take(k)) + byte_sum(s.skip(k)),
    decreases k,
{
    if k == 0 {
        assert(s.take(0) =~= Seq::<u8>::empty());
        assert(s.skip(0) =~= s);
    } else {
        assert(s.take(k)[0] == s[0]);
        assert(s.take(k).drop_first() =~= s.drop_first().take(k - 1));
        assert(s.skip(k) =~= s.drop_first().skip(k - 1));
        lemma_byte_sum_split(s.drop_first(), k - 1);
    }
}

/// The raw checksum is at least any single byte outside the checksum window.
pub proof fn lemma_raw_checksum_covers_first(s: Seq<u8>, checksum_offset: int)
    requires
        1 <= checksum_offset,
        checksum_offset + 4 <= s.len(),
    ensures
        spec_raw_checksum(s, checksum_offset) >= s[0],
        spec_raw_checksum(s, checksum_offset) >= 0,
{
    lemma_byte_sum_split(s, checksum_offset);
    lemma_byte_sum_split(s.skip(checksum_offset), 4);
    assert(s.skip(checksum_offset).take(4) =~= s.subrange(checksum_offset, checksum_offset + 4));
    lemma_byte_sum_bounds(s.take(checksum_offset));
    lemma_byte_sum_bounds(s.skip(checksum_offset).skip(4));
    lemma_byte_sum_bounds(s.take(checksum_offset).drop_first());
    assert(s.take(checksum_offset)[0] == s[0]);
    assert(byte_sum(s.take(checksum_offset)) >= s[0]);
}

/// The raw checksum does not depend on what sits in the checksum window:
/// rewriting only those four bytes leaves it unchanged.
pub proof fn lemma_raw_checksum_ignores_window(s1: Seq<u8>, s2: Seq<u8>, checksum_offset: int)
    requires
        s1.len() == s2.len(),
        0 <= checksum_offset,
        checksum_offset + 4 <= s1.len(),
        forall|k: int|
            0 <= k < s1.len() && !(checksum_offset <= k < checksum_offset + 4) ==> s1[k] == s2[k],
    ensures
        spec_raw_checksum(s1, checksum_offset) == spec_raw_checksum(s2, checksum_offset),
{
    lemma_byte_sum_split(s1, checksum_offset);
    lemma_byte_sum_split(s1.skip(checksum_offset), 4);
    lemma_byte_sum_split(s2, checksum_offset);
    lemma_byte_sum_split(s2.skip(checksum_offset), 4);
    assert(s1.skip(checksum_offset).take(4) =~= s1.subrange(
        checksum_offset,
        checksum_offset + 4,
    ));
    assert(s2.skip(checksum_offset).take(4) =~= s2.subrange(
        checksum_offset,
        checksum_offset + 4,
    ));
    assert(s1.take(checksum_offset) =~= s2.take(checksum_offset));
    assert(s1.skip(checksum_offset).skip(4) =~= s2.skip(checksum_offset).skip(4));
}

/// The raw checksum every title builds on: the sum of all save bytes with
/// the four checksum bytes themselves counted as zero.
pub open spec fn spec_raw_checksum(s: Seq<u8>, checksum_offset: int) -> int {
    byte_sum(s) - byte_sum(s.subrange(checksum_offset, checksum_offset + 4))
}

/// Computes the raw byte-sum checksum of a save buffer, skipping the four
/// bytes of the stored checksum itself.
pub fn compute_save_raw_checksum(buf: &[u8], checksum_offset: usize) -> (r: u32)
    requires
        checksum_offset + 4 <= buf@.len(),
        255 * buf@.len() <= u32::MAX,
    ensures
        r == spec_raw_checksum(buf@, checksum_offset as int),
{
    let n = buf.len();
    let mut sum: u32 = 0;
    let mut i: usize = 0;
    while i < n
        invariant
            i <= n,
            n == buf@.len(),
            checksum_offset + 4 <= n,
            255 * n <= u32::MAX,
            sum == byte_sum(buf@.take(i as int)) - byte_sum(
                in_window(buf@, checksum_offset as int, i as int),
            ),
            byte_sum(in_window(buf@, checksum_offset as int, i as int)) <= byte_sum(
                buf@.take(i as int),
            ),
        decreases n - i,
    {
        proof {
            lemma_byte_sum_bounds(buf@.take(i as int));
            lemma_byte_sum_bounds(in_window(buf@, checksum_offset as int, i as int));
            lemma_byte_sum_snoc(buf@.take(i as int), buf@[i as int]);
            assert(buf@.take(i as int).push(buf@[i as int]) =~= buf@.take(i + 1));
            if checksum_offset <= i < checksum_offset + 4 {
                lemma_byte_sum_snoc(
                    in_window(buf@, checksum_offset as int, i as int),
                    buf@[i as int],
                );
                assert(in_window(buf@, checksum_offset as int, i as int).push(buf@[i as int])
                    =~= in_window(buf@, checksum_offset as int, i + 1));
            } else {
                assert(in_window(buf@, checksum_offset as int, i as int) =~= in_window(
                    buf@,
                    checksum_offset as int,
                    i + 1,
                ));
            }
        }
        let b = buf[i];
        if i < checksum_offset || i >= checksum_offset + 4 {
            sum = sum + b as u32;
        }
        i = i + 1;
    }
    proof {
        assert(buf@.take(n as int) =~= buf@);
        assert(in_window(buf@, checksum_offset as int, n as int) =~= buf@.subrange(
            checksum_offset as int,
            checksum_offset + 4,
        ));
    }
    sum
}

/// Compares a window of the buffer against an expected byte pattern.
pub fn bytes_match(buf: &[u8], off: usize, expected: &[u8]) -> (r: bool)
    requires
        off + expected@.len() <= buf@.len(),
    ensures
        r <==> buf@.subrange(off as int, off + expected@.len()) == expected@,
{
    let n = expected.len();
    let total = buf.len();
    let mut i: usize = 0;
    while i < n
        invariant
            i <= n,
            n == expected@.len(),
            off + n <= buf@.len(),
            total == buf@.len(),
            forall|k: int| 0 <= k < i ==> buf@[off + k] == expected@[k],
        decreases n - i,
    {
        if buf[off + i] != expected[i] {
            proof {
                assert(buf@.subrange(off as int, off + n)[i as int] != expected@[i as int]);
            }
            return false;
        }
        i = i + 1;
    }
    proof {
        assert(buf@.subrange(off as int, off + n) =~= expected@);
    }
    true
}

/// Copies `len` bytes starting at `off` into a fresh buffer.
pub fn copy_range(buf: &[u8], off: usize, len: usize) -> (r: Vec<u8>)
    requires
        off + len <= buf@.len(),
    ensures
        r@ == buf@.subrange(off as int, off + len),
{
    let total = buf.len();
    let mut r: Vec<u8> = Vec::new();
    let mut i: usize = 0;
    while i < len
        invariant
            i <= len,
            off + len <= buf@.len(),
            total == buf@.len(),
            r@ == buf@.subrange(off as int, off + i),
        decreases len - i,
    {
        let byte = buf[off + i];
        r.push(byte);
        proof {
            assert(r@ =~= buf@.subrange(off as int, off + i + 1));
        }
        i = i + 1;
    }
    r
}

/// One chip slot of a folder.
#[derive(Clone, Copy, Debug, PartialEq, Eq, Structural)]
pub struct Chip {
    pub id: usize,
    pub code: char,
}

/// One installed navicust part.
#[derive(Clone, Copy, Debug, PartialEq, Eq, Structural)]
pub struct NavicustPart {
    pub id: usize,
    pub variant: usize,
    pub col: u8,
    pub row: u8,
    pub rot: u8,
    pub compressed: bool,
}

/// One installed patch card.
#[derive(Clone, Copy, Debug, PartialEq, Eq, Structural)]
pub struct PatchCard {
    pub id: usize,
    pub enabled: bool,
}

/// The chip code alphabet: the letter codes in order, then the wildcard.
pub open spec fn chip_alphabet() -> Seq<char> {
    seq![
        'A',
        'B',
        'C',
        'D',
        'E',
        'F',
        'G',
        'H',
        'I',
        'J',
        'K',
        'L',
        'M',
        'N',
        'O',
        'P',
        'Q',
        'R',
        'S',
        'T',
        'U',
        'V',
        'W',
        'X',
        'Y',
        'Z',
        '*',
    ]
}

/// The chip code letter at a position of the alphabet.
pub open spec fn chip_code_char(i: int) -> char {
    chip_alphabet()[i]
}

/// Decodes a packed chip word: the low nine bits are the chip id, the high
/// bits index the code alphabet. A code index past the alphabet means the
/// slot holds no valid chip.
pub fn decode_chip(raw: u16) -> (r: Option<Chip>)
    ensures
        raw >> 9 >= 27 ==> r is None,
        raw >> 9 < 27 ==> r == Some(
            Chip { id: (raw & 0x1ff) as usize, code: chip_code_char((raw >> 9) as int) },
        ),
{
    let alphabet: Vec<char> = vec![
        'A', 'B', 'C', 'D', 'E', 'F', 'G', 'H', 'I', 'J', 'K', 'L', 'M', 'N', 'O', 'P', 'Q', 'R',
        'S', 'T', 'U', 'V', 'W', 'X', 'Y', 'Z', '*',
    ];
    let code_index = (raw >> 9) as usize;
    if code_index >= 27 {
        return None;
    }
    proof {
        assert(alphabet@ =~= chip_alphabet());
    }
    Some(Chip { id: (raw & 0x1ff) as usize, code: alphabet[code_index] })
}

/// A composed navicust grid: one optional part index per cell, row-major.
pub struct ComposedNavicust {
    pub width: usize,
    pub height: usize,
    pub cells: Vec<Option<usize>>,
}

/// Builds a full SRAM dump: the save bytes re-masked and placed at `start`
/// inside a `0x10000`-byte image padded with zeroes.
pub fn sram_dump(buf: &[u8], start: usize, mask_offset: usize) -> (r: Vec<u8>)
    requires
        start + buf@.len() <= 0x10000,
        mask_offset + 4 <= buf@.len(),
    ensures
        r@.len() == 0x10000,
        r@.subrange(start as int, start + buf@.len()) == masked(buf@, mask_offset as int),
        forall|k: int| 0 <= k < start ==> r@[k] == 0,
        forall|k: int| start + buf@.len() <= k < 0x10000 ==> r@[k] == 0,
{
    let n = buf.len();
    let mut m = copy_range(buf, 0, n);
    proof {
        assert(m@ =~= buf@);
    }
    mask_save(&mut m, mask_offset);
    let mut out: Vec<u8> = Vec::new();
    let mut i: usize = 0;
    while i < start
        invariant
            i <= start,
            out@.len() == i,
            forall|k: int| 0 <= k < i ==> out@[k] == 0,
        decreases start - i,
    {
        out.push(0);
        i = i + 1;
    }
    let mut j: usize = 0;
    while j < n
        invariant
            j <= n,
            n == m@.len(),
            out@.len() == start + j,
            forall|k: int| 0 <= k < start ==> out@[k] == 0,
            forall|k: int| 0 <= k < j ==> out@[start + k] == m@[k],
        decreases n - j,
    {
        let byte = m[j];
        out.push(byte);
        j = j + 1;
    }
    let mut k: usize = out.len();
    while k < 0x10000
        invariant
            start + n <= k <= 0x10000,
            out@.len() == k,
            forall|t: int| 0 <= t < start ==> out@[t] == 0,
            forall|t: int| 0 <= t < n ==> out@[start + t] == m@[t],
            forall|t: int| start + n <= t < k ==> out@[t] == 0,
        decreases 0x10000 - k,
    {
        out.push(0);
        k = k + 1;
    }
    proof {
        assert(out@.subrange(start as int, start + n) =~= m@);
    }
    out
}

/// Finds a chip code letter's position in the alphabet.
pub fn chip_code_index(code: char) -> (r: Option<usize>)
    ensures
        match r {
            Some(i) => i < 27 && chip_code_char(i as int) == code,
            None => forall|j: int| 0 <= j < 27 ==> chip_code_char(j) != code,
        },
{
    let alphabet: Vec<char> = vec![
        'A', 'B', 'C', 'D', 'E', 'F', 'G', 'H', 'I', 'J', 'K', 'L', 'M', 'N', 'O', 'P', 'Q', 'R',
        'S', 'T', 'U', 'V', 'W', 'X', 'Y', 'Z', '*',
    ];
    proof {
        assert(alphabet@ =~= chip_alphabet());
    }
    let mut i: usize = 0;
    while i < 27
        invariant
            i <= 27,
            alphabet@ == chip_alphabet(),
            forall|j: int| 0 <= j < i ==> chip_code_char(j) != code,
        decreases 27 - i,
    {
        if alphabet[i] == code {
            return Some(i);
        }
        i = i + 1;
    }
    None
}

/// The checksum-window bytes seen in the first `i` bytes of the buffer.
pub open spec fn in_window(s: Seq<u8>, checksum_offset: int, i: int) -> Seq<u8> {
    if i <= checksum_offset {
        Seq::empty()
    } else if i >= checksum_offset + 4 {
        s.subrange(checksum_offset, checksum_offset + 4)
    } else {
        s.subrange(checksum_offset, i)
    }
}

} // verus!
