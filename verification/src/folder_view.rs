//! The folder view: prepares the equipped chip folder for display by moving
//! the regular chip into its display slot and grouping equal chips, in first
//! appearance order, with their counts and regular/tag markings. The
//! insertion-ordered grouping map is an outside collection, used through
//! trusted wrappers whose contracts speak of its entry sequence.

use vstd::prelude::*;

use crate::save::Chip;

verus! {

/// An insertion-ordered map of an outside crate, used for grouping.
#[verifier::external_type_specification]
#[verifier::external_body]
#[verifier::reject_recursive_types(K)]
#[verifier::reject_recursive_types(V)]
#[verifier::reject_recursive_types(S)]
pub struct ExIndexMap<K, V, S>(indexmap::IndexMap<K, V, S>);

/// The key-value pairs an insertion-ordered map holds, in their insertion
/// order.
pub uninterp spec fn index_map_entries(
    m: &indexmap::IndexMap<u64, u64, std::collections::hash_map::RandomState>,
) -> Seq<(u64, u64)>;

/// The value stored for a key in an entry sequence.
pub open spec fn entries_lookup(entries: Seq<(u64, u64)>, k: u64) -> Option<u64>
    decreases entries.len(),
{
    if entries.len() == 0 {
        None
    } else if entries[0].0 == k {
        Some(entries[0].1)
    } else {
        entries_lookup(entries.drop_first(), k)
    }
}

/// An insert into an entry sequence: an existing key keeps its place and its
/// value is replaced; a new key is appended last.
pub open spec fn entries_insert(entries: Seq<(u64, u64)>, k: u64, v: u64) -> Seq<(u64, u64)>
    decreases entries.len(),
{
    if entries.len() == 0 {
        seq![(k, v)]
    } else if entries[0].0 == k {
        seq![(k, v)] + entries.drop_first()
    } else {
        seq![entries[0]] + entries_insert(entries.drop_first(), k, v)
    }
}

/// Relies on indexmap's map constructor: a new map is empty.
#[verifier::external_body]
fn im_new() -> (r: indexmap::IndexMap<u64, u64, std::collections::hash_map::RandomState>)
    ensures
        index_map_entries(&r) == Seq::<(u64, u64)>::empty(),
{
    indexmap::IndexMap::new()
}

/// Relies on indexmap's `get`: the value stored for the key, if present.
#[verifier::external_body]
fn im_get(
    m: &indexmap::IndexMap<u64, u64, std::collections::hash_map::RandomState>,
    k: u64,
) -> (r: Option<u64>)
    ensures
        r == entries_lookup(index_map_entries(m), k),
{
    m.get(&k).copied()
}

/// Relies on indexmap's `insert`: an existing key keeps its place in the
/// order and its value is updated; a new key is appended last.
#[verifier::external_body]
fn im_insert(
    m: &mut indexmap::IndexMap<u64, u64, std::collections::hash_map::RandomState>,
    k: u64,
    v: u64,
)
    ensures
        index_map_entries(final(m)) == entries_insert(index_map_entries(old(m)), k, v),
{
    m.insert(k, v);
}

/// Relies on indexmap's `iter`: the pairs in their insertion order.
#[verifier::external_body]
fn im_entries(m: &indexmap::IndexMap<u64, u64, std::collections::hash_map::RandomState>) -> (r: Vec<
    (u64, u64),
>)
    ensures
        r@ == index_map_entries(m),
{
    m.iter().map(|e| (*e.0, *e.1)).collect()
}

/// One displayed folder row: how many copies of the chip sit together, and
/// whether any of them is the regular chip or a tag chip.
#[derive(Clone, Copy, Debug, PartialEq, Eq, Structural)]
pub struct GroupedChip {
    pub count: usize,
    pub is_regular: bool,
    pub tag_count: usize,
}

/// The grouping key of a chip: its id and code packed into one integer, so
/// equal chips group together and distinct chips never collide.
pub open spec fn chip_key(c: Chip) -> int {
    (c.id as int) * 0x1_0000_0000 + ((c.code as u32) as int)
}

/// Distinct chips have distinct keys.
pub proof fn lemma_chip_key_injective(a: Chip, b: Chip)
    requires
        a.id <= u32::MAX,
        b.id <= u32::MAX,
        chip_key(a) == chip_key(b),
    ensures
        a.id == b.id && a.code as u32 == b.code as u32,
{
    assert((a.id as int) == (b.id as int) && ((a.code as u32) as int) == ((b.code as u32) as int))
        by (nonlinear_arith)
        requires
            (a.id as int) * 0x1_0000_0000 + ((a.code as u32) as int) == (b.id as int)
                * 0x1_0000_0000 + ((b.code as u32) as int),
            0 <= (a.id as int) <= 0xffff_ffff,
            0 <= (b.id as int) <= 0xffff_ffff,
            0 <= ((a.code as u32) as int) <= 0xffff_ffff,
            0 <= ((b.code as u32) as int) <= 0xffff_ffff,
    ;
}

/// A row packed into one map value: the count in the low byte, the regular
/// flag in the next, the tag count above.
pub open spec fn pack_row(count: int, is_regular: bool, tag_count: int) -> u64 {
    (count + (if is_regular {
        0x100int
    } else {
        0int
    }) + tag_count * 0x1_0000) as u64
}

pub open spec fn row_count(v: u64) -> int {
    v as int % 0x100
}

pub open spec fn row_regular(v: u64) -> bool {
    (v as int / 0x100) % 0x100 == 1
}

pub open spec fn row_tags(v: u64) -> int {
    v as int / 0x1_0000
}

/// A stored row stays within its fields: at least one chip, and both counts
/// bounded by the folder size.
pub open spec fn row_wf(v: u64, bound: int) -> bool {
    &&& 1 <= row_count(v) <= bound
    &&& 0 <= row_tags(v) <= bound
    &&& v == pack_row(row_count(v), row_regular(v), row_tags(v))
}

/// Packing a row and reading its fields back yields the fields.
proof fn lemma_pack_row(count: int, is_regular: bool, tag_count: int)
    requires
        0 <= count < 0x100,
        0 <= tag_count < 0x100,
    ensures
        row_count(pack_row(count, is_regular, tag_count)) == count,
        row_regular(pack_row(count, is_regular, tag_count)) == is_regular,
        row_tags(pack_row(count, is_regular, tag_count)) == tag_count,
{
    let r: int = if is_regular {
        1
    } else {
        0
    };
    let v = count + r * 0x100 + tag_count * 0x1_0000;
    assert(v % 0x100 == count && (v / 0x100) % 0x100 == r && v / 0x1_0000 == tag_count)
        by (nonlinear_arith)
        requires
            v == count + r * 0x100 + tag_count * 0x1_0000,
            0 <= count < 0x100,
            0 <= r < 2,
            0 <= tag_count < 0x100,
    ;
}

/// One chip added to the grouping: its row's count rises by one, the regular
/// flag is sticky, the tag count rises when this position is tagged.
pub open spec fn spec_bump(entries: Seq<(u64, u64)>, key: u64, reg: bool, tag: bool) -> Seq<
    (u64, u64),
> {
    let cur = match entries_lookup(entries, key) {
        Some(v) => v,
        None => 0u64,
    };
    entries_insert(
        entries,
        key,
        pack_row(
            row_count(cur) + 1,
            row_regular(cur) || reg,
            row_tags(cur) + (if tag {
                1int
            } else {
                0int
            }),
        ),
    )
}

/// Whether a display position is one of the folder's tag positions.
pub open spec fn spec_is_tag(tag_indexes: Option<[usize; 2]>, i: int) -> bool {
    match tag_indexes {
        Some(pair) => pair[0] == i || pair[1] == i,
        None => false,
    }
}

/// The grouping of the first `n` chips.
pub open spec fn spec_group(
    chips: Seq<Chip>,
    regular_index: Option<usize>,
    tag_indexes: Option<[usize; 2]>,
    n: int,
) -> Seq<(u64, u64)>
    decreases n,
{
    if n <= 0 {
        Seq::empty()
    } else {
        spec_bump(
            spec_group(chips, regular_index, tag_indexes, n - 1),
            chip_key(chips[n - 1]) as u64,
            regular_index == Some((n - 1) as usize),
            spec_is_tag(tag_indexes, n - 1),
        )
    }
}

/// The display order of the folder: the chip stored first is moved into the
/// regular chip's display slot, replacing what was there.
pub open spec fn spec_display_order(chips: Seq<Chip>, regular_index: Option<usize>) -> Seq<Chip> {
    match regular_index {
        Some(i) => chips.drop_first().update(i as int, chips[0]),
        None => chips,
    }
}

/// The folder view of the save-view surface.
pub struct FolderView {}

impl FolderView {
    pub fn new() -> (r: Self)
        ensures
            r == (FolderView {  }),
    {
        FolderView {  }
    }

    /// Prepares the equipped folder for display: applies the regular chip's
    /// display position, then groups equal chips in first-appearance order.
    /// Each returned row carries a chip of its group's key, the group's size
    /// and its regular/tag markings, exactly as the grouping of the display
    /// order says.
    pub fn grouped_folder_chips(
        &self,
        chips: &Vec<Chip>,
        regular_index: Option<usize>,
        tag_indexes: Option<[usize; 2]>,
    ) -> (r: Vec<(Chip, GroupedChip)>)
        requires
            chips@.len() <= 0xff,
            forall|i: int| 0 <= i < chips@.len() ==> (#[trigger] chips@[i]).id <= u32::MAX,
            match regular_index {
                Some(i) => i + 1 < chips@.len(),
                None => true,
            },
        ensures
            ({
                let display = spec_display_order(chips@, regular_index);
                let entries = spec_group(display, regular_index, tag_indexes, display.len() as int);
                &&& r@.len() == entries.len()
                &&& forall|j: int|
                    0 <= j < entries.len() ==> {
                        &&& chip_key((#[trigger] r@[j]).0) == entries[j].0 as int
                        &&& r@[j].0.id <= u32::MAX
                        &&& r@[j].1.count == row_count(entries[j].1)
                        &&& r@[j].1.is_regular == row_regular(entries[j].1)
                        &&& r@[j].1.tag_count == row_tags(entries[j].1)
                    }
            }),
    {
        let mut display: Vec<Chip> = Vec::new();
        let n = chips.len();
        let mut i: usize = 0;
        while i < n
            invariant
                i <= n,
                n == chips@.len(),
                display@ == chips@.take(i as int),
            decreases n - i,
        {
            let c = chips[i];
            display.push(c);
            proof {
                assert(display@ =~= chips@.take(i + 1));
            }
            i = i + 1;
        }
        proof {
            assert(chips@.take(n as int) =~= chips@);
        }
        match regular_index {
            Some(idx) => {
                let first = display.remove(0);
                display[idx] = first;
                proof {
                    assert(display@ =~= spec_display_order(chips@, regular_index));
                }
            },
            None => {},
        }
        let mut grouped = im_new();
        let mut firsts: Vec<Chip> = Vec::new();
        let dn = display.len();
        let mut j: usize = 0;
        while j < dn
            invariant
                j <= dn,
                dn == display@.len(),
                dn <= 0xff,
                display@ == spec_display_order(chips@, regular_index),
                forall|k: int|
                    0 <= k < display@.len() ==> (#[trigger] display@[k]).id <= u32::MAX,
                index_map_entries(&grouped) == spec_group(
                    display@,
                    regular_index,
                    tag_indexes,
                    j as int,
                ),
                firsts@.len() == index_map_entries(&grouped).len(),
                forall|k: int|
                    0 <= k < firsts@.len() ==> chip_key(#[trigger] firsts@[k])
                        == index_map_entries(&grouped)[k].0 as int && firsts@[k].id <= u32::MAX,
                forall|k: int|
                    0 <= k < index_map_entries(&grouped).len() ==> row_wf(
                        (#[trigger] index_map_entries(&grouped)[k]).1,
                        j as int,
                    ),
            decreases dn - j,
        {
            let c = display[j];
            proof {
                assert(c.id <= u32::MAX);
                assert((c.id as u64) * 0x1_0000_0000 <= 0xffff_ffff_0000_0000u64)
                    by (nonlinear_arith)
                    requires
                        c.id <= 0xffff_ffffu64,
                ;
            }
            let key = (c.id as u64) * 0x1_0000_0000 + ((c.code as u32) as u64);
            let is_reg = match regular_index {
                Some(ri) => ri == j,
                None => false,
            };
            let is_tag = match tag_indexes {
                Some(pair) => pair[0] == j || pair[1] == j,
                None => false,
            };
            let ghost entries0 = index_map_entries(&grouped);
            let (cur, known) = match im_get(&grouped, key) {
                Some(v) => (v, true),
                None => (0u64, false),
            };
            proof {
                if known {
                    lemma_lookup_wf(entries0, key, j as int);
                } else {
                    assert(row_count(0u64) == 0 && !row_regular(0u64) && row_tags(0u64) == 0);
                }
            }
            let count = cur % 0x100;
            let reg_flag = (cur / 0x100) % 0x100;
            let tags = cur / 0x1_0000;
            let new_reg: u64 = if reg_flag == 1 || is_reg {
                1
            } else {
                0
            };
            let tag_inc: u64 = if is_tag {
                1
            } else {
                0
            };
            let new_val = (count + 1) + new_reg * 0x100 + (tags + tag_inc) * 0x1_0000;
            proof {
                lemma_pack_row(
                    row_count(cur) + 1,
                    row_regular(cur) || is_reg,
                    row_tags(cur) + (if is_tag {
                        1int
                    } else {
                        0int
                    }),
                );
                assert(new_val == pack_row(
                    row_count(cur) + 1,
                    row_regular(cur) || is_reg,
                    row_tags(cur) + (if is_tag {
                        1int
                    } else {
                        0int
                    }),
                ));
                assert(row_wf(new_val, j + 1));
            }
            im_insert(&mut grouped, key, new_val);
            proof {
                assert(index_map_entries(&grouped) == spec_group(
                    display@,
                    regular_index,
                    tag_indexes,
                    j + 1,
                ));
                lemma_insert_shape(entries0, key, new_val);
            }
            if !known {
                firsts.push(c);
                proof {
                    assert(index_map_entries(&grouped) =~= entries0.push((key, new_val)));
                }
            }
            j = j + 1;
        }
        let rows = im_entries(&grouped);
        let mut out: Vec<(Chip, GroupedChip)> = Vec::new();
        let rn = rows.len();
        let mut k: usize = 0;
        while k < rn
            invariant
                k <= rn,
                rn == rows@.len(),
                rows@ == index_map_entries(&grouped),
                firsts@.len() == rows@.len(),
                forall|t: int|
                    0 <= t < firsts@.len() ==> chip_key(#[trigger] firsts@[t]) == rows@[t].0 as int
                        && firsts@[t].id <= u32::MAX,
                forall|t: int| 0 <= t < rows@.len() ==> row_wf((#[trigger] rows@[t]).1, 0xff),
                out@.len() == k,
                forall|t: int|
                    0 <= t < k ==> {
                        &&& chip_key((#[trigger] out@[t]).0) == rows@[t].0 as int
                        &&& out@[t].0.id <= u32::MAX
                        &&& out@[t].1.count == row_count(rows@[t].1)
                        &&& out@[t].1.is_regular == row_regular(rows@[t].1)
                        &&& out@[t].1.tag_count == row_tags(rows@[t].1)
                    },
            decreases rn - k,
        {
            let (key, v) = rows[k];
            let chip = firsts[k];
            let row = GroupedChip {
                count: (v % 0x100) as usize,
                is_regular: (v / 0x100) % 0x100 == 1,
                tag_count: (v / 0x1_0000) as usize,
            };
            out.push((chip, row));
            k = k + 1;
        }
        out
    }
}

/// A looked-up value satisfies whatever every stored row satisfies.
proof fn lemma_lookup_wf(entries: Seq<(u64, u64)>, k: u64, bound: int)
    requires
        forall|t: int| 0 <= t < entries.len() ==> row_wf((#[trigger] entries[t]).1, bound),
        entries_lookup(entries, k) is Some,
    ensures
        row_wf(entries_lookup(entries, k)->0, bound),
    decreases entries.len(),
{
    if entries.len() > 0 && entries[0].0 != k {
        assert(forall|t: int|
            0 <= t < entries.drop_first().len() ==> row_wf(
                (#[trigger] entries.drop_first()[t]).1,
                bound,
            ));
        lemma_lookup_wf(entries.drop_first(), k, bound);
    }
}

/// An insert either updates one value in place or appends one pair at the
/// end; every key keeps its position.
proof fn lemma_insert_shape(entries: Seq<(u64, u64)>, k: u64, v: u64)
    ensures
        match entries_lookup(entries, k) {
            Some(u) => {
                &&& entries_insert(entries, k, v).len() == entries.len()
                &&& forall|t: int|
                    0 <= t < entries.len() ==> (#[trigger] entries_insert(entries, k, v)[t]).0
                        == entries[t].0
                &&& forall|t: int|
                    0 <= t < entries.len() ==> ((#[trigger] entries_insert(entries, k, v)[t]).1
                        == entries[t].1 || entries_insert(entries, k, v)[t] == (k, v))
            },
            None => entries_insert(entries, k, v) == entries.push((k, v)),
        },
    decreases entries.len(),
{
    if entries.len() == 0 {
        assert(entries_insert(entries, k, v) =~= entries.push((k, v)));
    } else if entries[0].0 == k {
        assert(entries_insert(entries, k, v) =~= seq![(k, v)] + entries.drop_first());
    } else {
        lemma_insert_shape(entries.drop_first(), k, v);
        match entries_lookup(entries.drop_first(), k) {
            Some(u) => {},
            None => {
                assert(entries_insert(entries, k, v) =~= entries.push((k, v)));
            },
        }
    }
}

} // verus!
