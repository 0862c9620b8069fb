use mpq_cli::command::VersionArg;
use mpq_cli::info::{
    flags_of, info_lines, BlockFlags, BlockInfo, HashSlot, InfoLine, InfoSummary, SlotState,
};

fn summary() -> InfoSummary {
    InfoSummary { format_version: VersionArg::V2, file_size: 4096, file_count: 3 }
}

fn slot(block_index: u32) -> HashSlot {
    HashSlot { name_1: 1, name_2: 2, locale: 0, platform: 0, block_index }
}

fn head() -> Vec<InfoLine> {
    vec![
        InfoLine::Title,
        InfoLine::Path,
        InfoLine::Version(VersionArg::V2),
        InfoLine::ArchiveSize(4096),
        InfoLine::FileCount(3),
    ]
}

#[test]
fn info_without_table_details() {
    let lines = info_lines(&summary(), false, &Some(vec![slot(0)]), false, &None);
    assert_eq!(lines, head());
}

#[test]
fn hash_table_details_skip_empty_slots() {
    let slots = vec![slot(0xFFFF_FFFF), slot(0), slot(0xFFFF_FFFE), slot(0xFFFF_FFFF), slot(5)];
    let lines = info_lines(&summary(), true, &Some(slots), false, &None);
    let mut expected = head();
    expected.extend([
        InfoLine::HashTableTitle,
        InfoLine::TableSize(5),
        InfoLine::HashRow { index: 1, state: SlotState::Used },
        InfoLine::HashRow { index: 2, state: SlotState::Deleted },
        InfoLine::HashRow { index: 4, state: SlotState::Used },
    ]);
    assert_eq!(lines, expected);
}

#[test]
fn block_table_details_decode_flags() {
    let blocks = vec![
        BlockInfo { file_pos: 32, compressed_size: 10, file_size: 20, flags: 0x8000_0200 },
        BlockInfo { file_pos: 42, compressed_size: 5, file_size: 5, flags: 0x8101_0000 },
    ];
    let lines = info_lines(&summary(), true, &None, true, &Some(blocks));
    let mut expected = head();
    expected.extend([
        InfoLine::HashTableTitle,
        InfoLine::TableAbsent,
        InfoLine::BlockTableTitle,
        InfoLine::TableSize(2),
        InfoLine::BlockRow {
            index: 0,
            flags: BlockFlags {
                exists: true,
                compressed: true,
                encrypted: false,
                single_unit: false,
                sector_crc: false,
            },
        },
        InfoLine::BlockRow {
            index: 1,
            flags: BlockFlags {
                exists: true,
                compressed: false,
                encrypted: true,
                single_unit: true,
                sector_crc: false,
            },
        },
    ]);
    assert_eq!(lines, expected);
}

#[test]
fn flag_bits() {
    assert_eq!(
        flags_of(0x0400_0100),
        BlockFlags { exists: false, compressed: true, encrypted: false, single_unit: false, sector_crc: true }
    );
    assert_eq!(
        flags_of(0),
        BlockFlags { exists: false, compressed: false, encrypted: false, single_unit: false, sector_crc: false }
    );
}
