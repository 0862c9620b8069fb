//! Checking an entry's data against the CRC32 and MD5 that the archive's
//! `(attributes)` file records for it.

use vstd::prelude::*;
use md5::Digest;

verus! {

/// The CRC32 (IEEE) of a byte sequence, as `crc32fast::hash` computes it.
pub uninterp spec fn crc32_digest(data: Seq<u8>) -> u32;

/// The MD5 digest of a byte sequence, as `md5::Md5::digest` computes it.
pub uninterp spec fn md5_digest(data: Seq<u8>) -> Seq<u8>;

/// `crc32fast::hash`: the CRC32 of the data.
#[verifier::external_body]
pub(crate) fn crc32_of(data: &Vec<u8>) -> (r: u32)
    ensures
        r == crc32_digest(data@),
{
    crc32fast::hash(data.as_slice())
}

/// `md5::Md5::digest` (the `Digest` trait of the `md-5` crate): the MD5 of
/// the data, 16 bytes long.
#[verifier::external_body]
pub(crate) fn md5_of(data: &Vec<u8>) -> (r: Vec<u8>)
    ensures
        r@ == md5_digest(data@),
        r@.len() == 16,
{
    md5::Md5::digest(data.as_slice()).to_vec()
}

/// What the `(attributes)` file records for one entry. A CRC32 of 0 and an
/// MD5 of zeros are what the format writes where nothing was recorded.
pub struct StoredChecksums {
    pub crc32: Option<u32>,
    pub md5: Option<Vec<u8>>,
}

/// Whether a recorded CRC32 is present: given and not 0.
pub open spec fn crc_recorded(c: Option<u32>) -> bool {
    c matches Some(v) && v != 0
}

/// Whether recorded MD5 bytes are present: not all zeros.
pub open spec fn md5_recorded(d: Seq<u8>) -> bool {
    exists|i: int| 0 <= i < d.len() && d[i] != 0
}

/// The data agrees with the record, given its computed CRC32 and MD5: each
/// recorded checksum equals the computed one; what is not recorded is not
/// checked.
pub open spec fn checksums_agree(crc: u32, md5: Seq<u8>, stored: StoredChecksums) -> bool {
    &&& crc_recorded(stored.crc32) ==> stored.crc32 == Some(crc)
    &&& match stored.md5 {
        Some(d) => md5_recorded(d@) ==> d@ == md5,
        None => true,
    }
}

fn bytes_eq(a: &Vec<u8>, b: &Vec<u8>) -> (r: bool)
    ensures
        r == (a@ == b@),
{
    if a.len() != b.len() {
        return false;
    }
    let n = a.len();
    for i in 0..n
        invariant
            n == a@.len(),
            n == b@.len(),
            forall|k: int| 0 <= k < i ==> a@[k] == b@[k],
    {
        if a[i] != b[i] {
            return false;
        }
    }
    assert(a@ =~= b@);
    true
}

fn all_zero(a: &Vec<u8>) -> (r: bool)
    ensures
        r == !md5_recorded(a@),
{
    let n = a.len();
    for i in 0..n
        invariant
            n == a@.len(),
            forall|k: int| 0 <= k < i ==> a@[k] == 0,
    {
        if a[i] != 0 {
            return false;
        }
    }
    true
}

/// Whether data with CRC32 `crc` and MD5 `md5` agrees with the record.
pub fn checksum_verdict(crc: u32, md5: &Vec<u8>, stored: &StoredChecksums) -> (r: bool)
    ensures
        r == checksums_agree(crc, md5@, *stored),
{
    let crc_ok = match stored.crc32 {
        Some(c) => c == 0 || c == crc,
        None => true,
    };
    let md5_ok = match &stored.md5 {
        Some(d) => all_zero(d) || bytes_eq(d, md5),
        None => true,
    };
    crc_ok && md5_ok
}

/// Whether an entry's data agrees with the CRC32 and MD5 recorded for it.
pub fn checksums_match(data: &Vec<u8>, stored: &StoredChecksums) -> (r: bool)
    ensures
        r == checksums_agree(crc32_digest(data@), md5_digest(data@), *stored),
{
    let crc = crc32_of(data);
    let md5 = md5_of(data);
    checksum_verdict(crc, &md5, stored)
}

} // verus!

verus! {

/// Data agrees with its record exactly when every recorded checksum is the
/// data's own: a recorded CRC32 (not 0) that differs from the data's, or a
/// recorded MD5 (not all zeros) that differs from the data's, is a
/// mismatch; a record of neither always agrees.
pub proof fn lemma_checksum_mismatch(crc: u32, md5: Seq<u8>, stored: StoredChecksums)
    ensures
        (stored.crc32 matches Some(c) && c != 0 && c != crc) ==> !checksums_agree(
            crc,
            md5,
            stored,
        ),
        (stored.md5 matches Some(d) && (exists|i: int| 0 <= i < d@.len() && d@[i] != 0) && d@
            != md5) ==> !checksums_agree(crc, md5, stored),
        (stored.crc32 is None || stored.crc32 == Some(0u32) || stored.crc32 == Some(crc)) && (
        stored.md5 matches None || (stored.md5 matches Some(d) && (d@ == md5 || forall|i: int|
            0 <= i < d@.len() ==> d@[i] == 0))) ==> checksums_agree(crc, md5, stored),
{
}

} // verus!
