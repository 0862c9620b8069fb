use mpq_cli::checksum::{checksum_verdict, checksums_match, StoredChecksums};

fn md5_of_abc() -> Vec<u8> {
    vec![
        0x90, 0x01, 0x50, 0x98, 0x3c, 0xd2, 0x4f, 0xb0, 0xd6, 0x96, 0x3f, 0x7d, 0x28, 0xe1, 0x7f,
        0x72,
    ]
}

#[test]
fn matching_checksums_pass() {
    let data = b"abc".to_vec();
    let stored = StoredChecksums { crc32: Some(0x352441c2), md5: Some(md5_of_abc()) };
    assert!(checksums_match(&data, &stored));
}

#[test]
fn wrong_crc_or_md5_fails() {
    let data = b"abc".to_vec();
    assert!(!checksums_match(&data, &StoredChecksums { crc32: Some(0x352441c3), md5: None }));
    let mut md5 = md5_of_abc();
    md5[0] ^= 1;
    assert!(!checksums_match(&data, &StoredChecksums { crc32: None, md5: Some(md5) }));
}

#[test]
fn unrecorded_checksums_are_not_checked() {
    let data = b"abc".to_vec();
    assert!(checksums_match(&data, &StoredChecksums { crc32: None, md5: None }));
    assert!(checksums_match(&data, &StoredChecksums { crc32: Some(0), md5: Some(vec![0; 16]) }));
}

#[test]
fn verdict_compares_given_digests() {
    let stored = StoredChecksums { crc32: Some(7), md5: Some(vec![1, 2, 3]) };
    assert!(checksum_verdict(7, &vec![1, 2, 3], &stored));
    assert!(!checksum_verdict(8, &vec![1, 2, 3], &stored));
    assert!(!checksum_verdict(7, &vec![1, 2, 4], &stored));
}
