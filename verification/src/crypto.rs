//! AES-128-CBC decryption of segment bodies, and the removal of the padding
//! that ends the plaintext.

use aes::cipher::{BlockDecryptMut, KeyIvInit};
use vstd::prelude::*;

verus! {

/// Bytes in one cipher block, in the key and in the initialization vector.
pub const BLOCK_LEN: usize = 16;

/// Why a segment body could not be decrypted.
#[derive(Clone, Copy, Debug, PartialEq, Eq)]
pub enum DecryptError {
    /// The ciphertext is not made of whole blocks.
    UnalignedInput,
    /// The plaintext does not end in well-formed padding.
    BadPadding,
}

/// What AES-128 in CBC mode yields for a ciphertext made of whole blocks,
/// before any padding is removed.
pub uninterp spec fn aes128_cbc_plain(ciphertext: Seq<u8>, key: Seq<u8>, iv: Seq<u8>) -> Seq<u8>;

/// The number of padding bytes that `plain` claims to end in: its last byte.
pub open spec fn pad_len(plain: Seq<u8>) -> int {
    plain[plain.len() - 1] as int
}

/// `plain` is made of whole blocks and ends in `k` bytes of value `k`, for
/// some `k` from 1 to 16.
pub open spec fn padding_ok(plain: Seq<u8>) -> bool {
    &&& plain.len() > 0
    &&& plain.len() % 16 == 0
    &&& 1 <= pad_len(plain) <= 16
    &&& forall|i: int| plain.len() - pad_len(plain) <= i < plain.len() ==> plain[i] == pad_len(plain)
}

/// `plain` without its padding, where the padding is well formed.
pub open spec fn unpadded(plain: Seq<u8>) -> Option<Seq<u8>> {
    if padding_ok(plain) {
        Some(plain.subrange(0, plain.len() - pad_len(plain)))
    } else {
        None
    }
}

/// What decrypting `ciphertext` under `key` and `iv` comes to.
pub open spec fn decrypted(ciphertext: Seq<u8>, key: Seq<u8>, iv: Seq<u8>) -> Result<
    Seq<u8>,
    DecryptError,
> {
    if ciphertext.len() % 16 != 0 {
        Err(DecryptError::UnalignedInput)
    } else {
        match unpadded(aes128_cbc_plain(ciphertext, key, iv)) {
            Some(message) => Ok(message),
            None => Err(DecryptError::BadPadding),
        }
    }
}

/// Calls `decrypt_padded_mut` of `cbc::Decryptor<aes::Aes128>` with
/// `NoPadding`, which decrypts every block in place and cuts nothing off: the
/// plaintext is as long as the ciphertext.
#[verifier::external_body]
fn cbc_decrypt_blocks(ciphertext: &[u8], key: &[u8], iv: &[u8]) -> (plain: Vec<u8>)
    requires
        ciphertext@.len() % 16 == 0,
        key@.len() == 16,
        iv@.len() == 16,
    ensures
        plain@ == aes128_cbc_plain(ciphertext@, key@, iv@),
        plain@.len() == ciphertext@.len(),
{
    let cipher = cbc::Decryptor::<aes::Aes128>::new(key.into(), iv.into());
    let mut buf = ciphertext.to_vec();
    let _ = cipher.decrypt_padded_mut::<aes::cipher::block_padding::NoPadding>(&mut buf);
    buf
}

/// Cuts the padding off a decrypted body.
///
/// The last byte says how many bytes were added; each of them must hold that
/// same count.
pub fn strip_padding(plain: Vec<u8>) -> (r: Result<Vec<u8>, DecryptError>)
    ensures
        match r {
            Ok(message) => unpadded(plain@) == Some(message@),
            Err(e) => e == DecryptError::BadPadding && unpadded(plain@) is None,
        },
{
    let n = plain.len();
    if n == 0 || n % BLOCK_LEN != 0 {
        return Err(DecryptError::BadPadding);
    }
    let count = plain[n - 1];
    if count == 0 || count > 16 {
        return Err(DecryptError::BadPadding);
    }
    let start = n - count as usize;
    let mut i = start;
    while i < n
        invariant
            start <= i <= n,
            n == plain@.len(),
            count == pad_len(plain@),
            start == n - count,
            forall|j: int| start <= j < i ==> plain@[j] == count,
        decreases n - i,
    {
        if plain[i] != count {
            return Err(DecryptError::BadPadding);
        }
        i += 1;
    }
    let mut message = plain;
    message.truncate(start);
    Ok(message)
}

/// Decrypts one segment body: AES-128 in CBC mode, then the padding comes
/// off.
pub fn decrypt_data(encrypted_data: &[u8], key: &[u8], iv: &[u8]) -> (r: Result<
    Vec<u8>,
    DecryptError,
>)
    requires
        key@.len() == 16,
        iv@.len() == 16,
    ensures
        match r {
            Ok(message) => decrypted(encrypted_data@, key@, iv@) == Ok::<Seq<u8>, DecryptError>(
                message@,
            ),
            Err(e) => decrypted(encrypted_data@, key@, iv@) == Err::<Seq<u8>, DecryptError>(e),
        },
{
    if encrypted_data.len() % BLOCK_LEN != 0 {
        return Err(DecryptError::UnalignedInput);
    }
    let plain = cbc_decrypt_blocks(encrypted_data, key, iv);
    strip_padding(plain)
}

/// The bytes that pad a message of `len` bytes to whole blocks: between 1 and
/// 16 of them, each holding their count.
pub open spec fn padding_for(len: nat) -> Seq<u8> {
    let count = 16 - len % 16;
    Seq::new(count as nat, |i: int| count as u8)
}

/// Padding that was put on comes off again: a message followed by its
/// padding strips back to the message.
pub proof fn lemma_padding_comes_off(message: Seq<u8>)
    ensures
        unpadded(message + padding_for(message.len())) == Some(message),
{
    let count = 16 - message.len() % 16;
    let padded = message + padding_for(message.len());
    assert(padded.len() == message.len() + count);
    assert(padded[padded.len() - 1] == count as u8);
    assert(pad_len(padded) == count);
    assert forall|i: int| padded.len() - pad_len(padded) <= i < padded.len() implies padded[i]
        == pad_len(padded) by {
        assert(padded[i] == padding_for(message.len())[i - message.len()]);
    }
    assert(padded.subrange(0, padded.len() - pad_len(padded)) =~= message);
}

} // verus!
