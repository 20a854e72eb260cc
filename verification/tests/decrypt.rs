use rpgmd::decrypt::{decrypt_asset, DecryptError};

fn sample_key() -> Vec<u8> {
    vec![
        0x00, 0x11, 0x22, 0x33, 0x44, 0x55, 0x66, 0x77, 0x88, 0x99, 0xaa, 0xbb, 0xcc, 0xdd, 0xee,
        0xff,
    ]
}

/// The forward obfuscation, written out by hand: XOR bytes 16..32 with the key.
fn mask(key: &[u8], content: &[u8]) -> Vec<u8> {
    let mut out = content.to_vec();
    for i in 0..16 {
        out[16 + i] ^= key[i];
    }
    out
}

#[test]
fn decrypt_undoes_masking() {
    let key = sample_key();
    let original: Vec<u8> = (0u8..40).collect();
    let masked = mask(&key, &original);
    let out = decrypt_asset(&key, &masked).unwrap();
    assert_eq!(out, original[16..].to_vec());
}

#[test]
fn output_is_sixteen_bytes_shorter() {
    let key = sample_key();
    let content: Vec<u8> = vec![7u8; 57];
    let out = decrypt_asset(&key, &content).unwrap();
    assert_eq!(out.len(), content.len() - 16);
}

#[test]
fn tail_is_copied_verbatim() {
    let key = sample_key();
    let mut content: Vec<u8> = vec![0u8; 32];
    content.extend_from_slice(&[9, 8, 7, 6, 5, 4, 3, 2]);
    let out = decrypt_asset(&key, &content).unwrap();
    assert_eq!(&out[16..], &content[32..]);
}

#[test]
fn masked_block_is_xored_with_key() {
    let key = sample_key();
    let mut content: Vec<u8> = vec![0u8; 16];
    content.extend_from_slice(&[0xffu8; 16]);
    content.push(0x55);
    let out = decrypt_asset(&key, &content).unwrap();
    let expected_block: Vec<u8> = key.iter().map(|k| k ^ 0xff).collect();
    assert_eq!(&out[..16], &expected_block[..]);
    assert_eq!(out[16], 0x55);
}

#[test]
fn exactly_thirty_two_bytes_is_accepted() {
    let key = sample_key();
    let content: Vec<u8> = vec![1u8; 32];
    let out = decrypt_asset(&key, &content).unwrap();
    assert_eq!(out.len(), 16);
}

#[test]
fn short_file_is_rejected_as_truncated() {
    let key = sample_key();
    let content: Vec<u8> = vec![1u8; 31];
    assert_eq!(decrypt_asset(&key, &content), Err(DecryptError::TruncatedAsset));
    let empty: Vec<u8> = Vec::new();
    assert_eq!(decrypt_asset(&key, &empty), Err(DecryptError::TruncatedAsset));
}

#[test]
fn truncated_error_message_names_the_cause() {
    let msg = DecryptError::TruncatedAsset.message();
    assert_eq!(msg, "encrypted asset is shorter than 32 bytes");
}
