use aes::cipher::block_padding::Pkcs7;
use aes::cipher::{BlockEncryptMut, KeyIvInit};
use m3u8_downloader_rs::crypto::{decrypt_data, strip_padding, DecryptError};

fn encrypt(plain: &[u8], key: &[u8; 16], iv: &[u8; 16]) -> Vec<u8> {
    let mut buf = vec![0u8; plain.len() + 16];
    buf[..plain.len()].copy_from_slice(plain);
    let cipher = cbc::Encryptor::<aes::Aes128>::new(key.into(), iv.into());
    let len = cipher.encrypt_padded_mut::<Pkcs7>(&mut buf, plain.len()).unwrap().len();
    buf.truncate(len);
    buf
}

#[test]
fn decrypt_round_trip_reproduces_plaintext() {
    let key = *b"0123456789abcdef";
    let iv = *b"fedcba9876543210";
    let plain = b"The quick brown fox jumps over the lazy dog".to_vec();
    let cipher = encrypt(&plain, &key, &iv);
    assert_eq!(cipher.len(), 48);
    assert_eq!(decrypt_data(&cipher, &key, &iv), Ok(plain));
}

#[test]
fn strip_padding_takes_the_counted_bytes() {
    let mut block = b"hello world!".to_vec();
    block.extend_from_slice(&[4, 4, 4, 4]);
    assert_eq!(strip_padding(block), Ok(b"hello world!".to_vec()));
    assert_eq!(strip_padding(vec![16u8; 16]), Ok(Vec::new()));
}

#[test]
fn strip_padding_rejects_malformed_padding() {
    let mut block = b"hello world!".to_vec();
    block.extend_from_slice(&[4, 4, 3, 4]);
    assert_eq!(strip_padding(block), Err(DecryptError::BadPadding));
    assert_eq!(strip_padding(vec![0u8; 16]), Err(DecryptError::BadPadding));
    assert_eq!(strip_padding(vec![17u8; 32]), Err(DecryptError::BadPadding));
    assert_eq!(strip_padding(Vec::new()), Err(DecryptError::BadPadding));
    assert_eq!(strip_padding(vec![1u8; 15]), Err(DecryptError::BadPadding));
}

#[test]
fn decrypt_rejects_partial_blocks() {
    let key = [7u8; 16];
    let iv = [9u8; 16];
    assert_eq!(decrypt_data(&[1u8; 17], &key, &iv), Err(DecryptError::UnalignedInput));
    assert_eq!(decrypt_data(&[], &key, &iv), Err(DecryptError::BadPadding));
}
