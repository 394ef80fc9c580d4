use birthmark::{Config, Error, Event, GenesisConfig, Pallet, Submission, SubmissionType};

const NOW: u64 = 1_000;
const BLOCK: u64 = 9;

fn registry() -> Pallet {
    GenesisConfig { config: Config { max_authority_id_length: 100 } }.build()
}

fn raw(byte: u8) -> Vec<u8> {
    vec![byte; 32]
}

fn hex(byte: u8) -> Vec<u8> {
    format!("{:02x}", byte).repeat(32).into_bytes()
}

fn item(hash: Vec<u8>, level: u8, parent: Option<Vec<u8>>, name: &str) -> Submission {
    (hash, SubmissionType::Camera, level, parent, name.as_bytes().to_vec())
}

fn submit(p: &mut Pallet, hash: Vec<u8>, level: u8, parent: Option<Vec<u8>>, name: &str) -> Result<(), Error> {
    p.submit_image_record(hash, SubmissionType::Camera, level, parent, name.as_bytes().to_vec(), NOW, BLOCK)
}

#[test]
fn first_raw_submission_is_stored() {
    let mut p = registry();
    assert_eq!(submit(&mut p, raw(0xAA), 0, None, "CANON"), Ok(()));
    assert_eq!(p.total_records(), 1);
    let r = p.get_image_record(&[0xAA; 32]).unwrap();
    assert_eq!(r.image_hash, [0xAA; 32]);
    assert_eq!(r.authority_id, 0);
    assert_eq!(r.submission_type, SubmissionType::Camera);
    assert_eq!(r.modification_level, 0);
    assert_eq!(r.parent_image_hash, None);
    assert_eq!(r.timestamp, 1_000);
    assert_eq!(r.block_number, 9);
    assert_eq!(p.get_authority_name(0), Some(b"CANON".to_vec()));
    assert_eq!(p.get_authority_name(1), None);
}

#[test]
fn resubmission_is_refused() {
    let mut p = registry();
    submit(&mut p, raw(0xAA), 0, None, "CANON").unwrap();
    assert_eq!(submit(&mut p, raw(0xAA), 0, None, "CANON"), Err(Error::HashAlreadyExists));
    assert_eq!(p.total_records(), 1);
}

#[test]
fn resubmission_with_other_metadata_is_refused() {
    let mut p = registry();
    submit(&mut p, raw(0xAA), 0, None, "CANON").unwrap();
    submit(&mut p, raw(0xBB), 0, None, "CANON").unwrap();
    let r = p.submit_image_record(raw(0xAA), SubmissionType::Software, 2, Some(raw(0xBB)), b"ADOBE".to_vec(), 5, 5);
    assert_eq!(r, Err(Error::HashAlreadyExists));
    assert_eq!(p.total_records(), 2);
    assert_eq!(p.next_authority_id(), 1);
    assert_eq!(p.get_image_record(&[0xAA; 32]).unwrap().modification_level, 0);
}

#[test]
fn child_reuses_authority_id() {
    let mut p = registry();
    submit(&mut p, raw(0xAA), 0, None, "CANON").unwrap();
    assert_eq!(submit(&mut p, raw(0xBB), 1, Some(raw(0xAA)), "CANON"), Ok(()));
    let r = p.get_image_record(&[0xBB; 32]).unwrap();
    assert_eq!(r.authority_id, 0);
    assert_eq!(r.parent_image_hash, Some([0xAA; 32]));
    assert_eq!(p.total_records(), 2);
    assert_eq!(p.next_authority_id(), 1);
}

#[test]
fn unknown_parent_is_refused() {
    let mut p = registry();
    submit(&mut p, raw(0xAA), 0, None, "CANON").unwrap();
    assert_eq!(submit(&mut p, raw(0xCC), 1, Some(raw(0xFF)), "CANON"), Err(Error::ParentHashNotFound));
    assert_eq!(p.total_records(), 1);
    assert!(!p.image_exists(&[0xCC; 32]));
}

#[test]
fn batch_with_bad_last_item_changes_nothing() {
    let mut p = registry();
    let items = vec![
        item(raw(1), 0, None, "NEW_AUTHORITY"),
        item(raw(2), 0, None, "NEW_AUTHORITY"),
        item(raw(3), 0, None, "NEW_AUTHORITY"),
        item(raw(4), 5, None, "NEW_AUTHORITY"),
    ];
    assert_eq!(p.submit_image_batch(items, NOW, BLOCK), Err(Error::InvalidModificationLevel));
    assert_eq!(p.total_records(), 0);
    for b in 1..=4u8 {
        assert!(!p.image_exists(&[b; 32]));
    }
    assert_eq!(p.next_authority_id(), 0);
    assert_eq!(p.get_authority_name(0), None);
    assert!(p.events().is_empty());
}

#[test]
fn batch_of_101_fails_before_validating_items() {
    let mut p = registry();
    let items: Vec<Submission> = (0..101).map(|_| item(vec![7u8; 3], 9, None, "X")).collect();
    assert_eq!(p.submit_image_batch(items, NOW, BLOCK), Err(Error::BatchTooLarge));
    assert_eq!(p.total_records(), 0);
}

#[test]
fn batch_of_100_succeeds() {
    let mut p = registry();
    let items: Vec<Submission> = (0..100u8).map(|i| item(raw(i), 0, None, "BULK")).collect();
    assert_eq!(p.submit_image_batch(items, NOW, BLOCK), Ok(100));
    assert_eq!(p.total_records(), 100);
    assert_eq!(p.next_authority_id(), 1);
}

#[test]
fn hex_and_binary_are_one_identity() {
    let mut p = registry();
    assert_eq!(submit(&mut p, hex(0xAB), 0, None, "CANON"), Ok(()));
    assert!(p.image_exists(&[0xAB; 32]));
    assert_eq!(submit(&mut p, raw(0xAB), 0, None, "CANON"), Err(Error::HashAlreadyExists));
    let upper = "AB".repeat(32).into_bytes();
    assert_eq!(submit(&mut p, upper, 0, None, "CANON"), Err(Error::HashAlreadyExists));
    assert_eq!(p.total_records(), 1);
}

#[test]
fn hex_parent_names_binary_record() {
    let mut p = registry();
    submit(&mut p, raw(0x5A), 0, None, "CANON").unwrap();
    assert_eq!(submit(&mut p, raw(0x5B), 1, Some(hex(0x5A)), "CANON"), Ok(()));
    assert_eq!(p.get_image_record(&[0x5B; 32]).unwrap().parent_image_hash, Some([0x5A; 32]));
}

#[test]
fn parse_image_hash_decodes_hex() {
    let text = b"000102030405060708090a0b0c0d0e0f101112131415161718191A1B1C1D1E1F";
    let mut expected = [0u8; 32];
    for (i, b) in expected.iter_mut().enumerate() {
        *b = i as u8;
    }
    assert_eq!(Pallet::parse_image_hash(text), Ok(expected));
    assert_eq!(Pallet::parse_image_hash(&raw(0xEE)), Ok([0xEE; 32]));
}

#[test]
fn parse_image_hash_refuses_other_shapes() {
    assert_eq!(Pallet::parse_image_hash(&[]), Err(Error::InvalidHashLength));
    assert_eq!(Pallet::parse_image_hash(&[0u8; 31]), Err(Error::InvalidHashLength));
    assert_eq!(Pallet::parse_image_hash(&[0u8; 33]), Err(Error::InvalidHashLength));
    assert_eq!(Pallet::parse_image_hash(&[0x30u8; 63]), Err(Error::InvalidHashLength));
    assert_eq!(Pallet::parse_image_hash(&[0x30u8; 65]), Err(Error::InvalidHashLength));
    let mut bad = "00".repeat(32).into_bytes();
    bad[17] = b'g';
    assert_eq!(Pallet::parse_image_hash(&bad), Err(Error::InvalidHashLength));
    let mut signed = "00".repeat(32).into_bytes();
    signed[0] = b'+';
    assert_eq!(Pallet::parse_image_hash(&signed), Err(Error::InvalidHashLength));
}

#[test]
fn parent_committed_earlier_in_batch_is_found() {
    let mut p = registry();
    let items = vec![item(raw(1), 0, None, "CANON"), item(raw(2), 1, Some(raw(1)), "CANON")];
    assert_eq!(p.submit_image_batch(items, NOW, BLOCK), Ok(2));
    assert_eq!(p.get_image_record(&[2; 32]).unwrap().parent_image_hash, Some([1; 32]));
}

#[test]
fn parent_later_in_batch_is_not_found() {
    let mut p = registry();
    let items = vec![item(raw(2), 1, Some(raw(1)), "CANON"), item(raw(1), 0, None, "CANON")];
    assert_eq!(p.submit_image_batch(items, NOW, BLOCK), Err(Error::ParentHashNotFound));
    assert_eq!(p.total_records(), 0);
}

#[test]
fn duplicate_inside_batch_fails_whole_batch() {
    let mut p = registry();
    let items = vec![item(raw(1), 0, None, "CANON"), item(hex(1), 0, None, "CANON")];
    assert_eq!(p.submit_image_batch(items, NOW, BLOCK), Err(Error::HashAlreadyExists));
    assert_eq!(p.total_records(), 0);
}

#[test]
fn batch_records_share_time_and_height() {
    let mut p = registry();
    let items = vec![item(raw(1), 0, None, "A"), item(raw(2), 2, None, "B")];
    assert_eq!(p.submit_image_batch(items, 77, 88), Ok(2));
    let a = p.get_image_record(&[1; 32]).unwrap();
    let b = p.get_image_record(&[2; 32]).unwrap();
    assert_eq!((a.timestamp, a.block_number), (77, 88));
    assert_eq!((b.timestamp, b.block_number), (77, 88));
    assert_eq!(b.authority_id, 1);
    assert_eq!(
        p.events(),
        &[
            Event::AuthorityRegistered { authority_id: 0, authority_name: b"A".to_vec() },
            Event::AuthorityRegistered { authority_id: 1, authority_name: b"B".to_vec() },
            Event::ImageBatchSubmitted { count: 2 },
        ][..]
    );
}

#[test]
fn register_twice_returns_same_id() {
    let mut p = registry();
    assert_eq!(p.register_or_get_authority(b"SONY".to_vec()), Ok(0));
    assert_eq!(p.register_or_get_authority(b"SONY".to_vec()), Ok(0));
    assert_eq!(p.next_authority_id(), 1);
    assert_eq!(p.register_or_get_authority(b"NIKON".to_vec()), Ok(1));
    assert_eq!(p.next_authority_id(), 2);
    assert_eq!(p.events().len(), 2);
}

#[test]
fn authority_name_length_limit() {
    let mut p = registry();
    assert_eq!(p.register_or_get_authority(vec![b'N'; 101]), Err(Error::AuthorityNameTooLong));
    assert_eq!(p.register_or_get_authority(vec![b'N'; 100]), Ok(0));
    assert_eq!(submit(&mut p, raw(1), 0, None, &"M".repeat(101)), Err(Error::AuthorityNameTooLong));
    assert_eq!(p.total_records(), 0);
}

#[test]
fn malformed_parent_hash_is_refused() {
    let mut p = registry();
    assert_eq!(submit(&mut p, raw(1), 1, Some(vec![1u8; 10]), "CANON"), Err(Error::InvalidParentHashLength));
    assert_eq!(p.total_records(), 0);
}

#[test]
fn hash_checked_before_level() {
    let mut p = registry();
    assert_eq!(submit(&mut p, vec![1u8; 5], 9, None, "CANON"), Err(Error::InvalidHashLength));
}

#[test]
fn single_submission_notifications() {
    let mut p = registry();
    submit(&mut p, raw(3), 1, None, "CANON").unwrap();
    assert_eq!(
        p.events(),
        &[
            Event::AuthorityRegistered { authority_id: 0, authority_name: b"CANON".to_vec() },
            Event::ImageRecordSubmitted { image_hash: [3; 32], authority_id: 0, modification_level: 1 },
        ][..]
    );
}

#[test]
fn ledger_values_saturate_to_32_bits() {
    let mut p = registry();
    p.submit_image_record(raw(1), SubmissionType::Camera, 0, None, b"C".to_vec(), u64::MAX, 1u64 << 32)
        .unwrap();
    let r = p.get_image_record(&[1; 32]).unwrap();
    assert_eq!(r.timestamp, u32::MAX);
    assert_eq!(r.block_number, u32::MAX);
}

#[test]
fn total_counts_distinct_committed_hashes() {
    let mut p = registry();
    submit(&mut p, raw(1), 0, None, "A").unwrap();
    let _ = submit(&mut p, raw(1), 0, None, "A");
    let _ = submit(&mut p, hex(1), 0, None, "A");
    let _ = submit(&mut p, raw(2), 7, None, "A");
    p.submit_image_batch(vec![item(raw(2), 0, None, "A"), item(raw(3), 0, None, "B")], NOW, BLOCK)
        .unwrap();
    let _ = p.submit_image_batch(vec![item(raw(4), 0, None, "A"), item(raw(3), 0, None, "B")], NOW, BLOCK);
    assert_eq!(p.total_records(), 3);
    assert_eq!(p.get_total_records(), 3);
}

#[test]
fn genesis_is_empty() {
    let p = registry();
    assert_eq!(p.total_records(), 0);
    assert_eq!(p.next_authority_id(), 0);
    assert!(p.events().is_empty());
    assert_eq!(p.config(), Config { max_authority_id_length: 100 });
}
