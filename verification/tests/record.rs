use autobricks_worm::storage::record::hex;
use autobricks_worm::storage::store::{check_file_checksum, check_metadata, ContentHasher};
use autobricks_worm::storage::{ErrorKind, Record, StoreError};
use sha2::{Digest, Sha256};

fn checksum(data: &[u8]) -> String {
    Sha256::digest(data)
        .iter()
        .map(|byte| format!("{byte:02x}"))
        .collect()
}

#[test]
fn hex_is_lower_case_two_digits_per_byte() {
    assert_eq!(hex(&[]), "");
    assert_eq!(hex(&[0x00, 0x0f, 0xa0, 0xff, 0x5c]), "000fa0ff5c");
}

#[test]
fn new_record_is_an_empty_checkpoint() {
    let record = Record::new(1_000, 3_600).unwrap();
    assert_eq!(record.format_version, 1);
    assert_eq!(record.created_at, 1_000);
    assert_eq!(record.retain_until, 4_600);
    assert_eq!(record.lock_offset, 0);
    assert_eq!(record.checksum, checksum(b""));
    assert_eq!(record.sha256_state.len(), 104);
    assert_eq!(record.validate_hasher(), Ok(()));
    assert_eq!(Record::new(u64::MAX, 1), Err(StoreError::RetentionOverflow));
}

#[test]
fn appends_match_standard_sha256_across_block_boundaries() {
    let mut record = Record::new(7, 0).unwrap();
    let mut content = Vec::new();
    for length in [16usize, 16, 31, 1, 1, 63, 64, 65, 4096, 0] {
        let buffer: Vec<u8> = (0..length).map(|i| (i % 251) as u8).collect();
        let next = record.append(record.lock_offset, &buffer).unwrap();
        content.extend_from_slice(&buffer);
        assert_eq!(next.checksum, checksum(&content));
        assert_eq!(next.lock_offset, content.len() as u64);
        assert_eq!(next.created_at, 7);
        assert_eq!(next.retain_until, 7);
        assert_eq!(next.validate_hasher(), Ok(()));
        record = next;
    }
}

#[test]
fn append_refuses_overwrite_gap_and_length_overflow() {
    let record = Record::new(0, 10).unwrap().append(0, b"first").unwrap();
    let error = record.append(0, b"replace").unwrap_err();
    assert_eq!(error, StoreError::AppendNotAtLock);
    assert_eq!(error.kind(), ErrorKind::PermissionDenied);
    assert_eq!(record.append(7, b"gap").unwrap_err(), StoreError::AppendNotAtLock);
    let mut huge = record.clone();
    huge.lock_offset = u64::MAX / 8;
    assert_eq!(huge.append(u64::MAX / 8, b"x").unwrap_err(), StoreError::LengthOverflow);
}

#[test]
fn corrupted_checkpoints_are_detected() {
    let record = Record::new(0, 10).unwrap().append(0, b"original").unwrap();
    let mut wrong = record.clone();
    wrong.lock_offset += 1;
    assert_eq!(wrong.validate_hasher(), Err(StoreError::StateLengthMismatch));
    assert_eq!(wrong.append(9, b"more").unwrap_err(), StoreError::StateLengthMismatch);
    let mut wrong = record.clone();
    wrong.checksum = checksum(b"tampered");
    assert_eq!(wrong.validate_hasher(), Err(StoreError::StateChecksumMismatch));
    let mut wrong = record.clone();
    wrong.format_version = 2;
    assert_eq!(wrong.validate_hasher(), Err(StoreError::InvalidMetadataHeader));
    let mut wrong = record.clone();
    wrong.retain_until = 0;
    wrong.created_at = 1;
    assert_eq!(wrong.validate_hasher(), Err(StoreError::InvalidMetadataHeader));
    let mut wrong = record.clone();
    wrong.sha256_state.pop();
    assert_eq!(wrong.validate_hasher(), Err(StoreError::InvalidStateLength));
    let mut wrong = record.clone();
    wrong.sha256_state[103] = 1;
    assert_eq!(wrong.validate_hasher(), Err(StoreError::InvalidState));
}

#[test]
fn metadata_checks_file_length_against_lock() {
    let record = Record::new(0, 10).unwrap().append(0, b"abc").unwrap();
    assert_eq!(check_metadata(&record, 3), Ok(()));
    assert_eq!(check_metadata(&record, 2), Err(StoreError::SizeDoesNotMatchLock));
    assert_eq!(check_metadata(&record, 4), Err(StoreError::SizeDoesNotMatchLock));
}

#[test]
fn streaming_verification_matches_checkpoint() {
    let record = Record::new(0, 10).unwrap().append(0, b"hello ").unwrap();
    let record = record.append(6, b"world").unwrap();
    let mut hasher = ContentHasher::new();
    assert_eq!(hasher.finish(), checksum(b""));
    hasher.update(b"hel");
    hasher.update(b"lo world");
    assert_eq!(hasher.absorbed(), 11);
    let text = hasher.finish();
    assert_eq!(text, checksum(b"hello world"));
    assert_eq!(check_file_checksum(&record, &text), Ok(()));
    let mut tampered = ContentHasher::new();
    tampered.update(b"hello there");
    assert_eq!(
        check_file_checksum(&record, &tampered.finish()),
        Err(StoreError::FileChecksumMismatch)
    );
}

#[test]
fn appends_compose_and_empty_appends_change_nothing() {
    let record = Record::new(5, 50).unwrap().append(0, b"abc").unwrap();
    let empty = record.append(3, b"").unwrap();
    assert_eq!(empty, record);
    let stepwise = record.append(3, b"defg").unwrap().append(7, b"hij").unwrap();
    let at_once = record.append(3, b"defghij").unwrap();
    assert_eq!(stepwise, at_once);
    assert_eq!(at_once.checksum, checksum(b"abcdefghij"));
}
