//! The asset decryptor: drops the 16-byte fake header and XORs the next
//! 16 bytes (the masked block) with the 16-byte key; everything after the
//! masked block is copied unchanged.

use vstd::prelude::*;

verus! {

/// A well-formed key is exactly 16 bytes.
pub open spec fn key_well_formed(key: Seq<u8>) -> bool {
    key.len() == 16
}

/// The decrypted form of an encrypted asset's contents: the bytes after
/// the 16-byte fake header, with the first 16 of them XORed with the key.
pub open spec fn spec_decrypt(key: Seq<u8>, content: Seq<u8>) -> Seq<u8> {
    Seq::new(
        (content.len() - 16) as nat,
        |i: int| if i < 16 { key[i] ^ content[16 + i] } else { content[16 + i] },
    )
}

/// The forward obfuscation: the whole file with bytes 16..32 XORed with
/// the key, the header and the tail left as they are.
pub open spec fn spec_mask(key: Seq<u8>, content: Seq<u8>) -> Seq<u8> {
    Seq::new(
        content.len(),
        |i: int| if 16 <= i < 32 { key[i - 16] ^ content[i] } else { content[i] },
    )
}

#[derive(Clone, Copy, PartialEq, Eq, Structural, Debug)]
pub enum DecryptError {
    /// The file is shorter than the 16-byte header plus the 16-byte
    /// masked block, so it cannot be an encrypted asset.
    TruncatedAsset,
}

impl DecryptError {
    /// A diagnostic line for reporting the failure.
    pub fn message(&self) -> (r: String)
        ensures
            r@ == "encrypted asset is shorter than 32 bytes"@,
    {
        String::from_str("encrypted asset is shorter than 32 bytes")
    }
}

/// Decrypt one asset's contents with a 16-byte key; contents shorter than
/// the header plus the masked block are rejected.
pub fn decrypt_asset(key: &Vec<u8>, content: &Vec<u8>) -> (r: Result<Vec<u8>, DecryptError>)
    requires
        key_well_formed(key@),
    ensures
        content@.len() >= 32 ==> (r matches Ok(out) && out@ == spec_decrypt(key@, content@)),
        content@.len() < 32 ==> (r matches Err(e) && e is TruncatedAsset),
{
    if content.len() < 32 {
        return Err(DecryptError::TruncatedAsset);
    }
    let mut out: Vec<u8> = Vec::new();
    let mut i: usize = 0;
    while i < 16
        invariant
            i <= 16,
            key@.len() == 16,
            content@.len() >= 32,
            out@.len() == i,
            forall|k: int| 0 <= k < i ==> out@[k] == spec_decrypt(key@, content@)[k],
        decreases 16 - i,
    {
        out.push(key[i] ^ content[16 + i]);
        i = i + 1;
    }
    let mut j: usize = 32;
    while j < content.len()
        invariant
            32 <= j <= content@.len(),
            content@.len() >= 32,
            key@.len() == 16,
            out@.len() == j - 16,
            forall|k: int| 0 <= k < j - 16 ==> out@[k] == spec_decrypt(key@, content@)[k],
        decreases content@.len() - j,
    {
        out.push(content[j]);
        j = j + 1;
    }
    proof {
        assert(out@ =~= spec_decrypt(key@, content@));
    }
    Ok(out)
}

proof fn lemma_xor_involution(a: u8, b: u8)
    by (bit_vector)
    ensures
        a ^ (a ^ b) == b,
{
}

/// Masking a file and then decrypting it with the same key yields exactly
/// the file's bytes after the header: XOR with the key is self-inverse.
pub proof fn lemma_decrypt_mask_roundtrip(key: Seq<u8>, content: Seq<u8>)
    requires
        key_well_formed(key),
        content.len() >= 32,
    ensures
        spec_decrypt(key, spec_mask(key, content)) == content.subrange(16, content.len() as int),
{
    let masked = spec_mask(key, content);
    let decrypted = spec_decrypt(key, masked);
    let tail = content.subrange(16, content.len() as int);
    assert forall|i: int| 0 <= i < decrypted.len() implies decrypted[i] == tail[i] by {
        if i < 16 {
            lemma_xor_involution(key[i], content[16 + i]);
        }
    }
    assert(decrypted =~= tail);
}

/// Decryption removes exactly the 16 header bytes: the output is 16 bytes
/// shorter than the input, nothing else added or dropped.
pub proof fn lemma_decrypt_len(key: Seq<u8>, content: Seq<u8>)
    requires
        content.len() >= 32,
    ensures
        spec_decrypt(key, content).len() == content.len() - 16,
{
}

/// Bytes of the output at offset 16 and beyond are byte-for-byte the
/// input's bytes at offset 32 and beyond.
pub proof fn lemma_decrypt_preserves_tail(key: Seq<u8>, content: Seq<u8>)
    requires
        content.len() >= 32,
    ensures
        forall|i: int|
            16 <= i < content.len() - 16 ==> spec_decrypt(key, content)[i] == content[i + 16],
{
}

} // verus!
