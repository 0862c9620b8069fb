//! What `info` shows of an archive: its header facts and, on request, the
//! details of its hash and block tables.

use vstd::prelude::*;
use crate::archive_api::{
    block_flag_compress, block_flag_encrypted, block_flag_exists, block_flag_implode,
    block_flag_sector_crc, block_flag_single_unit, hash_slot_deleted, hash_slot_never_used,
};
use crate::command::VersionArg;

verus! {

/// What `info` knows of an archive's header.
pub struct InfoSummary {
    pub format_version: VersionArg,
    pub file_size: u64,
    pub file_count: usize,
}

/// A slot of the hash table.
pub struct HashSlot {
    pub name_1: u32,
    pub name_2: u32,
    pub locale: u16,
    pub platform: u16,
    pub block_index: u32,
}

/// An entry of the block table.
pub struct BlockInfo {
    pub file_pos: u32,
    pub compressed_size: u32,
    pub file_size: u32,
    pub flags: u32,
}

/// Whether a hash slot that is not empty holds a file or marks a deleted one.
#[derive(Clone, Copy, Debug, PartialEq, Eq, Structural)]
pub enum SlotState {
    Used,
    Deleted,
}

/// What the flags of a block entry say.
#[derive(Clone, Copy, Debug, PartialEq, Eq, Structural)]
pub struct BlockFlags {
    pub exists: bool,
    pub compressed: bool,
    pub encrypted: bool,
    pub single_unit: bool,
    pub sector_crc: bool,
}

/// A line of the `info` report.
#[derive(Clone, Copy, Debug, PartialEq, Eq, Structural)]
pub enum InfoLine {
    /// The report's title and its underline.
    Title,
    /// The archive's path.
    Path,
    Version(VersionArg),
    ArchiveSize(u64),
    FileCount(usize),
    /// The heading of the hash-table details.
    HashTableTitle,
    /// The heading of the block-table details.
    BlockTableTitle,
    /// The archive has no such table.
    TableAbsent,
    /// The number of slots or entries of a table.
    TableSize(usize),
    /// The hash slot at `index`, which is not empty.
    HashRow { index: usize, state: SlotState },
    /// The block entry at `index`, with what its flags say.
    BlockRow { index: usize, flags: BlockFlags },
}

/// The row of a hash slot: none for a slot that was never used, else its
/// index and whether it holds a file or marks a deleted one.
pub open spec fn slot_row(slot: HashSlot, index: int) -> Seq<InfoLine> {
    if slot.block_index == 0xFFFF_FFFFu32 {
        Seq::empty()
    } else if slot.block_index == 0xFFFF_FFFEu32 {
        seq![InfoLine::HashRow { index: index as usize, state: SlotState::Deleted }]
    } else {
        seq![InfoLine::HashRow { index: index as usize, state: SlotState::Used }]
    }
}

/// The rows of the slots of a hash table that are not empty, in order.
pub open spec fn hash_rows(slots: Seq<HashSlot>) -> Seq<InfoLine>
    decreases slots.len(),
{
    if slots.len() == 0 {
        Seq::empty()
    } else {
        hash_rows(slots.drop_last()) + slot_row(slots.last(), slots.len() - 1)
    }
}

/// What the flags of a block entry say, by the MPQ flag bits.
pub open spec fn block_flags(f: u32) -> BlockFlags {
    BlockFlags {
        exists: f & 0x8000_0000u32 != 0,
        compressed: f & (0x0000_0100u32 | 0x0000_0200u32) != 0,
        encrypted: f & 0x0001_0000u32 != 0,
        single_unit: f & 0x0100_0000u32 != 0,
        sector_crc: f & 0x0400_0000u32 != 0,
    }
}

/// The rows of a block table: one for each entry, in order.
pub open spec fn block_rows(blocks: Seq<BlockInfo>) -> Seq<InfoLine> {
    Seq::new(
        blocks.len(),
        |i: int| InfoLine::BlockRow { index: i as usize, flags: block_flags(blocks[i].flags) },
    )
}

/// The details of a hash table, or the notice that there is none.
pub open spec fn hash_details(slots: Option<Vec<HashSlot>>) -> Seq<InfoLine> {
    match slots {
        None => seq![InfoLine::TableAbsent],
        Some(s) => seq![InfoLine::TableSize(s@.len() as usize)] + hash_rows(s@),
    }
}

/// The details of a block table, or the notice that there is none.
pub open spec fn block_details(blocks: Option<Vec<BlockInfo>>) -> Seq<InfoLine> {
    match blocks {
        None => seq![InfoLine::TableAbsent],
        Some(b) => seq![InfoLine::TableSize(b@.len() as usize)] + block_rows(b@),
    }
}

/// The `info` report: the header facts, then the hash-table details and the
/// block-table details when they are asked for.
pub open spec fn info_report(
    s: InfoSummary,
    show_hash_table: bool,
    hash_table: Option<Vec<HashSlot>>,
    show_block_table: bool,
    block_table: Option<Vec<BlockInfo>>,
) -> Seq<InfoLine> {
    seq![
        InfoLine::Title,
        InfoLine::Path,
        InfoLine::Version(s.format_version),
        InfoLine::ArchiveSize(s.file_size),
        InfoLine::FileCount(s.file_count),
    ] + (if show_hash_table {
        seq![InfoLine::HashTableTitle] + hash_details(hash_table)
    } else {
        Seq::empty()
    }) + (if show_block_table {
        seq![InfoLine::BlockTableTitle] + block_details(block_table)
    } else {
        Seq::empty()
    })
}

/// What the flags of a block entry say.
pub fn flags_of(f: u32) -> (r: BlockFlags)
    ensures
        r == block_flags(f),
{
    BlockFlags {
        exists: f & block_flag_exists() != 0,
        compressed: f & (block_flag_implode() | block_flag_compress()) != 0,
        encrypted: f & block_flag_encrypted() != 0,
        single_unit: f & block_flag_single_unit() != 0,
        sector_crc: f & block_flag_sector_crc() != 0,
    }
}

fn push_hash_details(lines: &mut Vec<InfoLine>, slots: &Vec<HashSlot>)
    ensures
        final(lines)@ == old(lines)@ + seq![InfoLine::TableSize(slots@.len() as usize)]
            + hash_rows(slots@),
{
    let never_used = hash_slot_never_used();
    let deleted = hash_slot_deleted();
    lines.push(InfoLine::TableSize(slots.len()));
    let ghost start = lines@;
    let n = slots.len();
    for i in 0..n
        invariant
            n == slots@.len(),
            never_used == 0xFFFF_FFFFu32,
            deleted == 0xFFFF_FFFEu32,
            lines@ == start + hash_rows(slots@.take(i as int)),
    {
        proof {
            assert(slots@.take(i + 1).drop_last() =~= slots@.take(i as int));
            assert(slots@.take(i + 1).last() == slots@[i as int]);
        }
        let b = slots[i].block_index;
        if b == never_used {
        } else if b == deleted {
            lines.push(InfoLine::HashRow { index: i, state: SlotState::Deleted });
        } else {
            lines.push(InfoLine::HashRow { index: i, state: SlotState::Used });
        }
        proof {
            assert(lines@ =~= start + hash_rows(slots@.take(i + 1)));
        }
    }
    proof {
        assert(slots@.take(n as int) =~= slots@);
    }
}

fn push_block_details(lines: &mut Vec<InfoLine>, blocks: &Vec<BlockInfo>)
    ensures
        final(lines)@ == old(lines)@ + seq![InfoLine::TableSize(blocks@.len() as usize)]
            + block_rows(blocks@),
{
    lines.push(InfoLine::TableSize(blocks.len()));
    let ghost start = lines@;
    let n = blocks.len();
    for i in 0..n
        invariant
            n == blocks@.len(),
            lines@ =~= start + block_rows(blocks@.take(i as int)),
    {
        let flags = flags_of(blocks[i].flags);
        lines.push(InfoLine::BlockRow { index: i, flags });
    }
    proof {
        assert(blocks@.take(n as int) =~= blocks@);
    }
}

/// The lines of the `info` report of an archive.
pub fn info_lines(
    s: &InfoSummary,
    show_hash_table: bool,
    hash_table: &Option<Vec<HashSlot>>,
    show_block_table: bool,
    block_table: &Option<Vec<BlockInfo>>,
) -> (lines: Vec<InfoLine>)
    ensures
        lines@ == info_report(*s, show_hash_table, *hash_table, show_block_table, *block_table),
{
    let mut lines: Vec<InfoLine> = Vec::new();
    lines.push(InfoLine::Title);
    lines.push(InfoLine::Path);
    lines.push(InfoLine::Version(s.format_version));
    lines.push(InfoLine::ArchiveSize(s.file_size));
    lines.push(InfoLine::FileCount(s.file_count));
    let ghost a = lines@;
    if show_hash_table {
        lines.push(InfoLine::HashTableTitle);
        match hash_table {
            Some(h) => push_hash_details(&mut lines, h),
            None => lines.push(InfoLine::TableAbsent),
        }
    }
    let ghost b = lines@;
    proof {
        assert(b =~= a + (if show_hash_table {
            seq![InfoLine::HashTableTitle] + hash_details(*hash_table)
        } else {
            Seq::empty()
        }));
    }
    if show_block_table {
        lines.push(InfoLine::BlockTableTitle);
        match block_table {
            Some(t) => push_block_details(&mut lines, t),
            None => lines.push(InfoLine::TableAbsent),
        }
    }
    proof {
        assert(lines@ =~= info_report(
            *s,
            show_hash_table,
            *hash_table,
            show_block_table,
            *block_table,
        ));
    }
    lines
}

} // verus!

verus! {

/// What the flag bits of a block entry mean: bit 31 says the file exists,
/// bits 8 and 9 that it is compressed (imploded or compressed), bit 16 that
/// it is encrypted, bit 24 that it is one unit, bit 26 that its sectors
/// carry CRCs.
pub proof fn lemma_block_flag_bits(f: u32)
    ensures
        block_flags(f).exists <==> f >= 0x8000_0000,
        block_flags(f).compressed <==> (f / 0x100) % 4 != 0,
        block_flags(f).encrypted <==> (f / 0x1_0000) % 2 == 1,
        block_flags(f).single_unit <==> (f / 0x100_0000) % 2 == 1,
        block_flags(f).sector_crc <==> (f / 0x400_0000) % 2 == 1,
{
    assert((f & 0x8000_0000u32 != 0) <==> f >= 0x8000_0000) by (bit_vector);
    assert((f & (0x0000_0100u32 | 0x0000_0200u32) != 0) <==> (f / 0x100) % 4 != 0) by (bit_vector);
    assert((f & 0x0001_0000u32 != 0) <==> (f / 0x1_0000) % 2 == 1) by (bit_vector);
    assert((f & 0x0100_0000u32 != 0) <==> (f / 0x100_0000) % 2 == 1) by (bit_vector);
    assert((f & 0x0400_0000u32 != 0) <==> (f / 0x400_0000) % 2 == 1) by (bit_vector);
}

proof fn lemma_info_contains_add(a: Seq<InfoLine>, b: Seq<InfoLine>, x: InfoLine)
    ensures
        (a + b).contains(x) <==> (a.contains(x) || b.contains(x)),
{
    if a.contains(x) {
        let i = choose|i: int| 0 <= i < a.len() && a[i] == x;
        assert((a + b)[i] == x);
    }
    if b.contains(x) {
        let i = choose|i: int| 0 <= i < b.len() && b[i] == x;
        assert((a + b)[a.len() + i] == x);
    }
    if (a + b).contains(x) {
        let i = choose|i: int| 0 <= i < (a + b).len() && (a + b)[i] == x;
        if i < a.len() {
            assert(a[i] == x);
        } else {
            assert(b[i - a.len()] == x);
        }
    }
}

/// The hash-table details list the slot at position `i` exactly when the
/// table has such a slot and it is not empty (block index 0xFFFFFFFF), as
/// deleted exactly when its block index is 0xFFFFFFFE, else as used.
pub proof fn lemma_hash_rows(slots: Seq<HashSlot>, i: int, state: SlotState)
    requires
        0 <= i <= usize::MAX,
        slots.len() <= usize::MAX,
    ensures
        hash_rows(slots).contains(InfoLine::HashRow { index: i as usize, state }) <==> (0 <= i
            < slots.len() && slots[i].block_index != 0xFFFF_FFFFu32 && (state
            == SlotState::Deleted <==> slots[i].block_index == 0xFFFF_FFFEu32)),
    decreases slots.len(),
{
    let x = InfoLine::HashRow { index: i as usize, state };
    if slots.len() > 0 {
        let init = slots.drop_last();
        let j = slots.len() - 1;
        lemma_hash_rows(init, i, state);
        lemma_info_contains_add(hash_rows(init), slot_row(slots.last(), j), x);
        let row = slot_row(slots.last(), j);
        if row.contains(x) {
            assert(row[0] == x);
        }
        if i == j && slots[i].block_index != 0xFFFF_FFFFu32 && (state == SlotState::Deleted
            <==> slots[i].block_index == 0xFFFF_FFFEu32) {
            assert(row[0] == x);
        }
        if i < j {
            assert(init[i] == slots[i]);
        }
    }
}

/// The block-table details hold one row per entry, in order, each with what
/// that entry's flags say.
pub proof fn lemma_block_rows(blocks: Seq<BlockInfo>, i: int)
    requires
        0 <= i < blocks.len(),
    ensures
        block_rows(blocks).len() == blocks.len(),
        block_rows(blocks)[i] == (InfoLine::BlockRow {
            index: i as usize,
            flags: block_flags(blocks[i].flags),
        }),
{
}

/// The report opens with the header facts; table details appear only when
/// asked for, each under its heading.
pub proof fn lemma_info_report(
    s: InfoSummary,
    show_hash_table: bool,
    hash_table: Option<Vec<HashSlot>>,
    show_block_table: bool,
    block_table: Option<Vec<BlockInfo>>,
)
    ensures
        ({
            let r = info_report(s, show_hash_table, hash_table, show_block_table, block_table);
            &&& r.take(5) == seq![
                InfoLine::Title,
                InfoLine::Path,
                InfoLine::Version(s.format_version),
                InfoLine::ArchiveSize(s.file_size),
                InfoLine::FileCount(s.file_count),
            ]
            &&& r.contains(InfoLine::HashTableTitle) <==> show_hash_table
            &&& r.contains(InfoLine::BlockTableTitle) <==> show_block_table
            &&& (!show_hash_table && !show_block_table) ==> r.len() == 5
        }),
{
    let r = info_report(s, show_hash_table, hash_table, show_block_table, block_table);
    let head = seq![
        InfoLine::Title,
        InfoLine::Path,
        InfoLine::Version(s.format_version),
        InfoLine::ArchiveSize(s.file_size),
        InfoLine::FileCount(s.file_count),
    ];
    let h = if show_hash_table {
        seq![InfoLine::HashTableTitle] + hash_details(hash_table)
    } else {
        Seq::empty()
    };
    let b = if show_block_table {
        seq![InfoLine::BlockTableTitle] + block_details(block_table)
    } else {
        Seq::empty()
    };
    assert(r == head + h + b);
    assert(r.take(5) =~= head);
    assert forall|x: InfoLine| #[trigger] r.contains(x) <==> (head.contains(x) || h.contains(x)
        || b.contains(x)) by {
        lemma_info_contains_add(head, h, x);
        lemma_info_contains_add(head + h, b, x);
    }
    let ht = InfoLine::HashTableTitle;
    let bt = InfoLine::BlockTableTitle;
    assert(!head.contains(ht)) by {
        if head.contains(ht) {
            let i = choose|i: int| 0 <= i < head.len() && head[i] == ht;
        }
    }
    assert(!head.contains(bt)) by {
        if head.contains(bt) {
            let i = choose|i: int| 0 <= i < head.len() && head[i] == bt;
        }
    }
    lemma_no_titles_in_details(hash_table, block_table);
    if show_hash_table {
        assert(h[0] == ht);
        lemma_info_contains_add(seq![InfoLine::HashTableTitle], hash_details(hash_table), bt);
        if seq![InfoLine::HashTableTitle].contains(bt) {
            assert(seq![InfoLine::HashTableTitle][0] == bt);
        }
    }
    if show_block_table {
        assert(b[0] == bt);
        lemma_info_contains_add(seq![InfoLine::BlockTableTitle], block_details(block_table), ht);
        if seq![InfoLine::BlockTableTitle].contains(ht) {
            assert(seq![InfoLine::BlockTableTitle][0] == ht);
        }
    }
}

proof fn lemma_no_titles_in_rows(slots: Seq<HashSlot>)
    ensures
        !hash_rows(slots).contains(InfoLine::HashTableTitle),
        !hash_rows(slots).contains(InfoLine::BlockTableTitle),
    decreases slots.len(),
{
    if slots.len() > 0 {
        lemma_no_titles_in_rows(slots.drop_last());
        let row = slot_row(slots.last(), slots.len() - 1);
        lemma_info_contains_add(hash_rows(slots.drop_last()), row, InfoLine::HashTableTitle);
        lemma_info_contains_add(hash_rows(slots.drop_last()), row, InfoLine::BlockTableTitle);
        if row.contains(InfoLine::HashTableTitle) {
            assert(row[0] == InfoLine::HashTableTitle);
        }
        if row.contains(InfoLine::BlockTableTitle) {
            assert(row[0] == InfoLine::BlockTableTitle);
        }
    }
}

proof fn lemma_no_titles_in_details(
    hash_table: Option<Vec<HashSlot>>,
    block_table: Option<Vec<BlockInfo>>,
)
    ensures
        !hash_details(hash_table).contains(InfoLine::HashTableTitle),
        !hash_details(hash_table).contains(InfoLine::BlockTableTitle),
        !block_details(block_table).contains(InfoLine::HashTableTitle),
        !block_details(block_table).contains(InfoLine::BlockTableTitle),
{
    let ht = InfoLine::HashTableTitle;
    let bt = InfoLine::BlockTableTitle;
    match hash_table {
        None => {
            if hash_details(hash_table).contains(ht) {
                assert(hash_details(hash_table)[0] == ht);
            }
            if hash_details(hash_table).contains(bt) {
                assert(hash_details(hash_table)[0] == bt);
            }
        },
        Some(v) => {
            let a = seq![InfoLine::TableSize(v@.len() as usize)];
            lemma_no_titles_in_rows(v@);
            lemma_info_contains_add(a, hash_rows(v@), ht);
            lemma_info_contains_add(a, hash_rows(v@), bt);
            if a.contains(ht) {
                assert(a[0] == ht);
            }
            if a.contains(bt) {
                assert(a[0] == bt);
            }
        },
    }
    match block_table {
        None => {
            if block_details(block_table).contains(ht) {
                assert(block_details(block_table)[0] == ht);
            }
            if block_details(block_table).contains(bt) {
                assert(block_details(block_table)[0] == bt);
            }
        },
        Some(v) => {
            let a = seq![InfoLine::TableSize(v@.len() as usize)];
            lemma_info_contains_add(a, block_rows(v@), ht);
            lemma_info_contains_add(a, block_rows(v@), bt);
            if a.contains(ht) {
                assert(a[0] == ht);
            }
            if a.contains(bt) {
                assert(a[0] == bt);
            }
            if block_rows(v@).contains(ht) {
                let i = choose|i: int| 0 <= i < block_rows(v@).len() && block_rows(v@)[i] == ht;
            }
            if block_rows(v@).contains(bt) {
                let i = choose|i: int| 0 <= i < block_rows(v@).len() && block_rows(v@)[i] == bt;
            }
        },
    }
}

} // verus!
