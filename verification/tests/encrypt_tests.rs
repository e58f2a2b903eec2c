use base64::Engine;
use cloudreve_sync::encrypt::{EncryptMetadata, EncryptedReader, EncryptionConfig};

fn sample_config() -> EncryptionConfig {
    let key: Vec<u8> = (0u8..32).collect();
    let iv: Vec<u8> = (100u8..116).collect();
    EncryptionConfig::from_parts(key, iv).unwrap()
}

#[test]
fn test_increment_counter() {
    let mut counter = vec![0u8; 16];
    counter[15] = 0xFF;
    EncryptionConfig::increment_counter(&mut counter, 1);
    assert_eq!(counter[14], 1);
    assert_eq!(counter[15], 0);
}

#[test]
fn test_increment_counter_large() {
    let mut counter = vec![0u8; 16];
    EncryptionConfig::increment_counter(&mut counter, 256);
    assert_eq!(counter[14], 1);
    assert_eq!(counter[15], 0);
}

#[test]
fn test_increment_counter_carry_chain() {
    let mut counter = vec![0xFFu8; 16];
    EncryptionConfig::increment_counter(&mut counter, 1);
    assert_eq!(counter, vec![0u8; 16]);
}

#[test]
fn test_from_parts_rejects_bad_lengths() {
    assert!(EncryptionConfig::from_parts(vec![0u8; 31], vec![0u8; 16]).is_err());
    assert!(EncryptionConfig::from_parts(vec![0u8; 32], vec![0u8; 15]).is_err());
    assert!(EncryptionConfig::from_parts(vec![0u8; 32], vec![0u8; 16]).is_ok());
}

#[test]
fn test_from_metadata_round_trip() {
    let key: Vec<u8> = (0u8..32).collect();
    let iv: Vec<u8> = (40u8..56).collect();
    let metadata = EncryptMetadata {
        key_plain_text: base64::engine::general_purpose::STANDARD.encode(&key),
        iv: base64::engine::general_purpose::STANDARD.encode(&iv),
    };
    let config = EncryptionConfig::from_metadata(&metadata).unwrap();
    let mut a = vec![1u8, 2, 3, 4];
    let mut b = vec![1u8, 2, 3, 4];
    config.encrypt_at_offset(&mut a, 0);
    EncryptionConfig::from_parts(key, iv).unwrap().encrypt_at_offset(&mut b, 0);
    assert_eq!(a, b);
}

#[test]
fn test_from_metadata_rejects_invalid() {
    let bad = EncryptMetadata {
        key_plain_text: String::from("!!!not base64!!!"),
        iv: String::from("AAAA"),
    };
    assert!(EncryptionConfig::from_metadata(&bad).is_err());
}

#[test]
fn test_encrypt_round_trip_aligned() {
    let config = sample_config();
    let original: Vec<u8> = (0u8..64).collect();
    let mut data = original.clone();
    config.encrypt_at_offset(&mut data, 0);
    assert_ne!(data, original);
    config.encrypt_at_offset(&mut data, 0);
    assert_eq!(data, original);
}

#[test]
fn test_encrypt_round_trip_unaligned_offset() {
    let config = sample_config();
    let original: Vec<u8> = (0u8..50).collect();
    for offset in [1u64, 7, 15, 16, 17, 31, 33] {
        let mut data = original.clone();
        config.encrypt_at_offset(&mut data, offset);
        assert_ne!(data, original);
        config.encrypt_at_offset(&mut data, offset);
        assert_eq!(data, original);
    }
}

#[test]
fn test_encrypt_chunks_match_whole() {
    let config = sample_config();
    let original: Vec<u8> = (0u8..200).map(|x| x.wrapping_mul(37)).collect();
    let whole = config.encrypt(&original, 0);
    // Cut at block-aligned and unaligned boundaries alike.
    for cut in [1usize, 16, 23, 32, 100, 199] {
        let head = config.encrypt(&original[..cut].to_vec(), 0);
        let tail = config.encrypt(&original[cut..].to_vec(), cut as u64);
        let mut joined = head.clone();
        joined.extend_from_slice(&tail);
        assert_eq!(joined, whole);
    }
}

#[test]
fn test_encrypted_reader_tracks_position() {
    let config = sample_config();
    let original: Vec<u8> = (0u8..48).collect();
    let whole = config.encrypt(&original, 0);

    let mut reader: EncryptedReader<()> = EncryptedReader::new((), config.clone());
    let mut first = original[..20].to_vec();
    reader.encrypt_next(&mut first);
    let mut second = original[20..].to_vec();
    reader.encrypt_next(&mut second);
    let mut joined = first.clone();
    joined.extend_from_slice(&second);
    assert_eq!(joined, whole);

    let mut offset_reader: EncryptedReader<()> = EncryptedReader::with_offset((), config, 20);
    let mut tail = original[20..].to_vec();
    offset_reader.encrypt_next(&mut tail);
    assert_eq!(tail, second);
}
