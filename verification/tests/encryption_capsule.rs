use aes_gcm::aead::Aead;
use aes_gcm::KeyInit;
use memvid_core::encryption::capsule::lock_file_with;
use memvid_core::encryption::capsule_stream::lock_stream_with;
use memvid_core::encryption::capsule_stream::nonce_for_chunk;
use memvid_core::encryption::capsule_stream::open_stream;
use memvid_core::encryption::capsule_stream::validate_mv2_file;
use memvid_core::encryption::crypto::decrypt;
use memvid_core::encryption::crypto::derive_key;
use memvid_core::encryption::crypto::encrypt;
use memvid_core::encryption::crypto::wipe_key;
use memvid_core::encryption::lock_file;
use memvid_core::encryption::lock_file_stream;
use memvid_core::encryption::unlock_file;
use memvid_core::encryption::unlock_file_stream;
use memvid_core::encryption::CipherAlgorithm;
use memvid_core::encryption::EncryptionError;
use memvid_core::encryption::KdfAlgorithm;
use memvid_core::encryption::Mv2eHeader;
use memvid_core::encryption::MV2E_MAGIC;
use memvid_core::encryption::MV2E_VERSION;
use memvid_core::encryption::NONCE_SIZE;
use memvid_core::encryption::SALT_SIZE;
use memvid_core::memvid::Memvid;
use memvid_core::storage::image::read_store;
use memvid_core::storage::HEADER_SIZE;
use memvid_core::types::PutOptions;
use memvid_core::types::Tier;

fn write_at(file: &mut Vec<u8>, offset: u64, data: &[u8]) {
    let offset = offset as usize;
    if file.len() < offset + data.len() {
        file.resize(offset + data.len(), 0);
    }
    file[offset..offset + data.len()].copy_from_slice(data);
}

/// The file of a store with a log region of `wal_size` bytes that holds the
/// given payloads, committed.
fn store_image(wal_size: u64, payloads: &[&[u8]]) -> Vec<u8> {
    let with_options: Vec<(&[u8], PutOptions)> =
        payloads.iter().map(|payload| (*payload, PutOptions::default())).collect();
    store_image_with_options(wal_size, with_options)
}

fn store_image_with_options(wal_size: u64, payloads: Vec<(&[u8], PutOptions)>) -> Vec<u8> {
    let mut file = Vec::new();
    let mut mem = Memvid::create(Tier::Free, wal_size).expect("create");
    write_at(&mut file, 0, &vec![0u8; HEADER_SIZE + wal_size as usize]);
    for (payload, options) in payloads {
        let id = mem.put_bytes_with_options(payload, options).expect("put");
        let offset = mem.frame(id).expect("frame").offset;
        write_at(&mut file, offset, payload);
    }
    let body = format!("{:?}", mem.toc).into_bytes();
    let plan = mem.commit(&body).expect("commit");
    write_at(&mut file, plan.footer.toc_offset, &plan.footer.footer);
    write_at(&mut file, 0, &plan.footer.header);
    write_at(&mut file, HEADER_SIZE as u64, &plan.wal_header);
    assert_eq!(file.len() as u64, mem.file_len);
    file
}

fn decode_header(capsule: &[u8]) -> Mv2eHeader {
    let header_bytes: [u8; Mv2eHeader::SIZE] =
        capsule[..Mv2eHeader::SIZE].try_into().expect("slice to array");
    Mv2eHeader::decode(&header_bytes).expect("decode header")
}

#[test]
fn mv2e_header_roundtrip() {
    let header = Mv2eHeader {
        magic: MV2E_MAGIC,
        version: MV2E_VERSION,
        kdf_algorithm: KdfAlgorithm::Argon2id,
        cipher_algorithm: CipherAlgorithm::Aes256Gcm,
        salt: [1u8; SALT_SIZE],
        nonce: [2u8; NONCE_SIZE],
        original_size: 1024,
        reserved: [0u8; 4],
    };

    let encoded = header.encode();
    let decoded = Mv2eHeader::decode(&encoded).expect("decode");

    assert_eq!(decoded.magic, header.magic);
    assert_eq!(decoded.version, header.version);
    assert_eq!(decoded.salt, header.salt);
    assert_eq!(decoded.nonce, header.nonce);
    assert_eq!(decoded.original_size, header.original_size);
}

#[test]
fn mv2e_header_layout_is_fixed() {
    let header = Mv2eHeader {
        magic: MV2E_MAGIC,
        version: MV2E_VERSION,
        kdf_algorithm: KdfAlgorithm::Argon2id,
        cipher_algorithm: CipherAlgorithm::Aes256Gcm,
        salt: [1u8; SALT_SIZE],
        nonce: [2u8; NONCE_SIZE],
        original_size: 0x0102_0304_0506_0708,
        reserved: [1, 0, 0, 0],
    };
    let encoded = header.encode();
    assert_eq!(encoded.len(), 64);
    assert_eq!(&encoded[0..4], b"MV2E");
    assert_eq!(&encoded[4..6], &[1, 0]);
    assert_eq!(encoded[6], 1);
    assert_eq!(encoded[7], 1);
    assert_eq!(&encoded[8..24], &[1u8; 16]);
    assert_eq!(&encoded[24..36], &[2u8; 12]);
    assert_eq!(&encoded[36..44], &[8, 7, 6, 5, 4, 3, 2, 1]);
    assert_eq!(&encoded[44..48], &[1, 0, 0, 0]);
    assert_eq!(&encoded[48..64], &[0u8; 16]);
    assert_eq!(Mv2eHeader::decode(&encoded), Ok(header));
}

#[test]
fn mv2e_header_rejects_foreign_bytes() {
    let header = Mv2eHeader {
        magic: MV2E_MAGIC,
        version: MV2E_VERSION,
        kdf_algorithm: KdfAlgorithm::Argon2id,
        cipher_algorithm: CipherAlgorithm::Aes256Gcm,
        salt: [1u8; SALT_SIZE],
        nonce: [2u8; NONCE_SIZE],
        original_size: 9,
        reserved: [0u8; 4],
    };
    let encoded = header.encode();
    for position in (0..8).chain(48..64) {
        let mut changed = encoded;
        changed[position] ^= 0x40;
        assert_eq!(Mv2eHeader::decode(&changed), Err(EncryptionError::NotMv2File));
    }
    // the fields in between are not checked: they are read as they are
    for position in 8..48 {
        let mut changed = encoded;
        changed[position] ^= 0x40;
        let decoded = Mv2eHeader::decode(&changed).expect("decode");
        assert_eq!(decoded.encode(), changed);
    }
}

#[test]
fn chunk_nonce_carries_the_index_big_endian() {
    let base = [9u8; NONCE_SIZE];
    assert_eq!(nonce_for_chunk(&base, 0), [9, 9, 9, 9, 0, 0, 0, 0, 0, 0, 0, 0]);
    assert_eq!(nonce_for_chunk(&base, 1), [9, 9, 9, 9, 0, 0, 0, 0, 0, 0, 0, 1]);
    assert_eq!(
        nonce_for_chunk(&base, 0x0102_0304_0506_0708),
        [9, 9, 9, 9, 1, 2, 3, 4, 5, 6, 7, 8]
    );
}

#[test]
fn lock_refuses_what_is_no_store() {
    assert_eq!(validate_mv2_file(b"MV2\0"), Ok(()));
    assert_eq!(validate_mv2_file(b"MV2"), Err(EncryptionError::NotMv2File));
    assert_eq!(lock_file(b"hello", b"pw"), Err(EncryptionError::NotMv2File));
    assert_eq!(lock_file_stream(b"", b"pw"), Err(EncryptionError::NotMv2File));
}

#[test]
fn lock_unlock_roundtrip_preserves_bytes() {
    let original = store_image_with_options(
        4096,
        vec![(
            b"hello",
            PutOptions {
                title: Some("doc".to_string()),
                labels: vec!["note".to_string()],
                ..Default::default()
            },
        )],
    );

    let capsule = lock_file(&original, b"test-password-123").expect("lock");
    let restored = unlock_file(&capsule, b"test-password-123").expect("unlock");

    assert_eq!(original, restored);
}

#[test]
fn wrong_password_fails() {
    let original = store_image(4096, &[b"hello"]);

    let capsule = lock_file(&original, b"password-a").expect("lock");
    let err = unlock_file(&capsule, b"password-b").expect_err("should fail");
    assert!(matches!(err, EncryptionError::Decryption { .. }));
}

#[test]
fn streaming_encryption_large_file() {
    // the file is longer than 1 MiB because of its log region
    let contents: Vec<String> = (0..5)
        .map(|i| format!("Entry {} with content: {}", i, "x".repeat(10_000)))
        .collect();
    let payloads: Vec<(&[u8], PutOptions)> = contents
        .iter()
        .enumerate()
        .map(|(i, content)| {
            let options = PutOptions {
                title: Some(format!("Entry {}", i)),
                labels: vec!["test".to_string()],
                ..Default::default()
            };
            (content.as_bytes(), options)
        })
        .collect();
    let original = store_image_with_options(2 * 1024 * 1024, payloads);
    let original_size = original.len() as u64;
    assert!(original_size > 1_000_000, "File should be >1MB, got {} bytes", original_size);

    let capsule = lock_file(&original, b"streaming-test-password").expect("lock");

    let header = decode_header(&capsule);
    assert_eq!(header.reserved[0], 0x01, "Should use streaming format (reserved[0] == 0x01)");
    assert_eq!(header.original_size, original_size);
    // three chunks: each adds four bytes of length and sixteen of tag
    assert!(original.len() > 2 * 1024 * 1024 && original.len() < 3 * 1024 * 1024);
    assert_eq!(capsule.len(), 64 + original.len() + 3 * 20);

    let restored = unlock_file(&capsule, b"streaming-test-password").expect("unlock");
    assert_eq!(original.len(), restored.len(), "Size mismatch");
    assert_eq!(original, restored, "Content mismatch");

    // the restored file is a store with the frames of the original
    let (header, _) = read_store(&restored).expect("open restored");
    let stored: usize = contents.iter().map(|content| content.len()).sum();
    let frame_end = HEADER_SIZE as u64 + header.wal_size + stored as u64;
    assert_eq!(header.toc_offset, (frame_end + 7) / 8 * 8);
}

#[test]
fn wrong_password_fails_streaming() {
    let contents: Vec<String> =
        (0..3).map(|i| format!("Entry {} {}", i, "data".repeat(10_000))).collect();
    let payloads: Vec<&[u8]> = contents.iter().map(|content| content.as_bytes()).collect();
    let original = store_image(2 * 1024 * 1024, &payloads);

    let capsule = lock_file_stream(&original, b"correct-password").expect("lock");

    let header = decode_header(&capsule);
    assert_eq!(header.reserved[0], 0x01, "Should use streaming format");

    let err = unlock_file(&capsule, b"wrong-password").expect_err("should fail");
    assert!(
        matches!(err, EncryptionError::Decryption { .. }),
        "Expected Decryption error, got {:?}",
        err
    );
    let err = unlock_file_stream(&capsule, b"wrong-password").expect_err("should fail");
    assert_eq!(err, EncryptionError::Decryption);
}

#[test]
fn fixed_salt_and_nonce_give_a_fixed_capsule() {
    let original = b"MV2\0hello".to_vec();
    let salt = [3u8; SALT_SIZE];
    let nonce = [4u8; NONCE_SIZE];
    let first = lock_file_with(&original, b"pw", &salt, &nonce).expect("lock");
    let second = lock_file_with(&original, b"pw", &salt, &nonce).expect("lock");
    assert_eq!(first, second);
    let header = decode_header(&first);
    assert_eq!(header.salt, salt);
    assert_eq!(header.nonce, nonce);
    assert_eq!(header.reserved, [0, 0, 0, 0]);
    assert_eq!(header.original_size, 9);
    assert_eq!(first.len(), 64 + 9 + 16);
    assert_ne!(&first[64..73], &original[..]);
}

#[test]
fn truncated_stream_is_reported() {
    let key = [5u8; 32];
    let base = [6u8; NONCE_SIZE];
    // a record that announces 32 bytes and holds 3
    let body = [32u8, 0, 0, 0, 1, 2, 3];
    assert_eq!(open_stream(&body, &key, &base), Err(EncryptionError::Truncated));
    // fewer than four bytes are no record
    assert_eq!(open_stream(&[1, 2, 3], &key, &base), Ok(Vec::new()));
    assert_eq!(open_stream(&[], &key, &base), Ok(Vec::new()));
    // a record shorter than a tag cannot be opened
    assert_eq!(open_stream(&[2, 0, 0, 0, 7, 7], &key, &base), Err(EncryptionError::Decryption));
    assert_eq!(unlock_file(&[0u8; 10], b"pw"), Err(EncryptionError::Truncated));
}

#[test]
fn key_is_derived_with_argon2id() {
    let salt = [9u8; SALT_SIZE];
    let key = derive_key(b"password", &salt).expect("key");
    let params = argon2::Params::new(19456, 2, 1, Some(32)).expect("params");
    let hasher = argon2::Argon2::new(argon2::Algorithm::Argon2id, argon2::Version::V0x13, params);
    let mut expected = [0u8; 32];
    hasher.hash_password_into(b"password", &salt, &mut expected).expect("hash");
    assert_eq!(key, expected);
    assert_ne!(key, [0u8; 32]);
}

#[test]
fn chunks_are_sealed_with_aes_256_gcm() {
    let key = [5u8; 32];
    let nonce = [6u8; NONCE_SIZE];
    let sealed = encrypt(b"plaintext", &key, &nonce).expect("seal");
    let cipher = aes_gcm::Aes256Gcm::new((&key).into());
    let expected = cipher.encrypt((&nonce).into(), &b"plaintext"[..]).expect("seal");
    assert_eq!(sealed, expected);
    assert_eq!(sealed.len(), 9 + 16);
    assert_ne!(&sealed[..9], b"plaintext");
    assert_eq!(decrypt(&sealed, &key, &nonce), Ok(b"plaintext".to_vec()));
    assert_eq!(decrypt(&sealed, &[4u8; 32], &nonce), Err(EncryptionError::Decryption));
    assert_eq!(decrypt(&sealed, &key, &[7u8; NONCE_SIZE]), Err(EncryptionError::Decryption));
    for position in 0..sealed.len() {
        let mut changed = sealed.clone();
        changed[position] ^= 1;
        assert_eq!(decrypt(&changed, &key, &nonce), Err(EncryptionError::Decryption));
    }
}

#[test]
fn wiped_key_is_zero() {
    let mut key = [0xa5u8; 32];
    wipe_key(&mut key);
    assert_eq!(key, [0u8; 32]);
}

#[test]
fn each_lock_has_its_own_salt_and_nonce() {
    let original = b"MV2\0hello".to_vec();
    let first = lock_file(&original, b"pw").expect("lock");
    let second = lock_file(&original, b"pw").expect("lock");
    let (first, second) = (decode_header(&first), decode_header(&second));
    assert_ne!(first.salt, second.salt);
    assert_ne!(first.nonce, second.nonce);
}

#[test]
fn changed_capsule_does_not_open() {
    let contents = vec![7u8; 3000];
    let original = store_image(4096, &[&contents]);
    let salt = [3u8; SALT_SIZE];
    let nonce = [4u8; NONCE_SIZE];
    let capsule = lock_stream_with(&original, b"pw", &salt, &nonce).expect("lock");
    let key = derive_key(b"pw", &salt).expect("key");
    assert_eq!(open_stream(&capsule[64..], &key, &nonce), Ok(original.clone()));
    // a changed byte of the length or of the sealed chunk
    for position in [64, 65, 67, 68, 100, capsule.len() - 1] {
        let mut changed = capsule.clone();
        changed[position] ^= 0x01;
        let outcome = open_stream(&changed[64..], &key, &nonce);
        assert!(
            outcome == Err(EncryptionError::Decryption)
                || outcome == Err(EncryptionError::Truncated),
            "position {}: {:?}",
            position,
            outcome
        );
    }
    // a capsule that ends inside its chunk
    assert_eq!(
        open_stream(&capsule[64..capsule.len() - 1], &key, &nonce),
        Err(EncryptionError::Truncated)
    );
    // another base nonce; its last eight bytes give way to the index of the chunk
    let mut other = nonce;
    other[0] ^= 0x01;
    assert_eq!(open_stream(&capsule[64..], &key, &other), Err(EncryptionError::Decryption));
    let mut same = nonce;
    same[11] ^= 0x01;
    assert_eq!(open_stream(&capsule[64..], &key, &same), Ok(original));
}

#[test]
fn round_trip_of_more_than_ten_mebibytes() {
    let mut original = b"MV2\0".to_vec();
    original.extend((0..10 * 1024 * 1024 + 123).map(|i: u32| (i % 251) as u8));
    let salt = [1u8; SALT_SIZE];
    let nonce = [2u8; NONCE_SIZE];
    let capsule = lock_stream_with(&original, b"pw", &salt, &nonce).expect("lock");
    // eleven chunks
    assert_eq!(capsule.len(), 64 + original.len() + 11 * 20);
    assert_eq!(decode_header(&capsule).original_size, original.len() as u64);
    let restored = unlock_file_stream(&capsule, b"pw").expect("unlock");
    assert!(original == restored);
}
