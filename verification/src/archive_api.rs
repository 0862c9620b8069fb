//! The items of `wow_mpq` that the library's logic uses, with the contracts
//! that its source shows.

use vstd::prelude::*;
use wow_mpq::FormatVersion;
use crate::text::to_slashes;

verus! {

#[verifier::external_type_specification]
#[verifier::external_body]
pub struct ExFormatVersion(FormatVersion);

/// The raw header number of a `wow_mpq::FormatVersion`: the discriminant
/// that its source gives the variant (`V1 = 0` up to `V4 = 3`).
pub uninterp spec fn version_number(v: FormatVersion) -> u16;

/// `wow_mpq::FormatVersion::from_raw` maps the raw header numbers 0..=3 to
/// the version with that number and every other number to `None`.
pub assume_specification[ FormatVersion::from_raw ](raw: u16) -> (r: Option<FormatVersion>)
    ensures
        r is Some <==> raw <= 3,
        r matches Some(v) ==> version_number(v) == raw,
;

/// The raw header number of a version, read as the discriminant of the
/// fieldless enum `FormatVersion`, whose discriminants are 0, 1, 2 and 3.
#[verifier::external_body]
pub(crate) fn format_version_raw(v: &FormatVersion) -> (r: u16)
    ensures
        r == version_number(*v),
        r <= 3,
{
    *v as u16
}

/// `wow_mpq::compression::flags::ZLIB`, which the source defines as 0x02.
#[verifier::external_body]
pub(crate) fn zlib_flag() -> (f: u8)
    ensures
        f == 0x02,
{
    wow_mpq::compression::flags::ZLIB
}

/// `wow_mpq::compression::flags::BZIP2`, which the source defines as 0x10.
#[verifier::external_body]
pub(crate) fn bzip2_flag() -> (f: u8)
    ensures
        f == 0x10,
{
    wow_mpq::compression::flags::BZIP2
}

/// `wow_mpq::compression::flags::LZMA`, which the source defines as 0x12.
#[verifier::external_body]
pub(crate) fn lzma_flag() -> (f: u8)
    ensures
        f == 0x12,
{
    wow_mpq::compression::flags::LZMA
}


/// `wow_mpq::path::mpq_path_to_system`: on Unix every `\` becomes `/`, on
/// Windows the path comes back unchanged. Stated for every platform: either
/// every `\` is turned into `/` or none is.
pub assume_specification[ wow_mpq::path::mpq_path_to_system ](path: &str) -> (r: String)
    ensures
        r@ == path@ || r@ == to_slashes(path@),
;


/// `wow_mpq::tables::HashEntry::EMPTY_NEVER_USED`: the block index of a
/// hash slot that was never used, 0xFFFFFFFF in the source.
#[verifier::external_body]
pub(crate) fn hash_slot_never_used() -> (v: u32)
    ensures
        v == 0xFFFF_FFFF,
{
    wow_mpq::tables::HashEntry::EMPTY_NEVER_USED
}

/// `wow_mpq::tables::HashEntry::EMPTY_DELETED`: the block index of a hash
/// slot whose file was deleted, 0xFFFFFFFE in the source.
#[verifier::external_body]
pub(crate) fn hash_slot_deleted() -> (v: u32)
    ensures
        v == 0xFFFF_FFFE,
{
    wow_mpq::tables::HashEntry::EMPTY_DELETED
}

/// `wow_mpq::tables::BlockEntry::FLAG_IMPLODE`, 0x00000100 in the source.
#[verifier::external_body]
pub(crate) fn block_flag_implode() -> (v: u32)
    ensures
        v == 0x0000_0100,
{
    wow_mpq::tables::BlockEntry::FLAG_IMPLODE
}

/// `wow_mpq::tables::BlockEntry::FLAG_COMPRESS`, 0x00000200 in the source.
#[verifier::external_body]
pub(crate) fn block_flag_compress() -> (v: u32)
    ensures
        v == 0x0000_0200,
{
    wow_mpq::tables::BlockEntry::FLAG_COMPRESS
}

/// `wow_mpq::tables::BlockEntry::FLAG_ENCRYPTED`, 0x00010000 in the source.
#[verifier::external_body]
pub(crate) fn block_flag_encrypted() -> (v: u32)
    ensures
        v == 0x0001_0000,
{
    wow_mpq::tables::BlockEntry::FLAG_ENCRYPTED
}

/// `wow_mpq::tables::BlockEntry::FLAG_SINGLE_UNIT`, 0x01000000 in the
/// source.
#[verifier::external_body]
pub(crate) fn block_flag_single_unit() -> (v: u32)
    ensures
        v == 0x0100_0000,
{
    wow_mpq::tables::BlockEntry::FLAG_SINGLE_UNIT
}

/// `wow_mpq::tables::BlockEntry::FLAG_SECTOR_CRC`, 0x04000000 in the source.
#[verifier::external_body]
pub(crate) fn block_flag_sector_crc() -> (v: u32)
    ensures
        v == 0x0400_0000,
{
    wow_mpq::tables::BlockEntry::FLAG_SECTOR_CRC
}

/// `wow_mpq::tables::BlockEntry::FLAG_EXISTS`, 0x80000000 in the source.
#[verifier::external_body]
pub(crate) fn block_flag_exists() -> (v: u32)
    ensures
        v == 0x8000_0000,
{
    wow_mpq::tables::BlockEntry::FLAG_EXISTS
}

} // verus!
