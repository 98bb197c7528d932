use ugly::error::UglyError;
use ugly::storage::encrypt::{decrypt, derive_key, encrypt, generate_salt};
use ugly::storage::file::{
    append_wallet_entry, contains_public_key, decode_payload, encode_payload, read_encrypted,
    write_encrypted, DecryptedWallets,
};

fn sample_wallets() -> DecryptedWallets {
    let mut pubs = Vec::new();
    let mut privs = Vec::new();
    let mut stamps = Vec::new();
    for i in 0..3u8 {
        pubs.push([i + 1; 32]);
        privs.push([i + 100; 64]);
        stamps.push(1_700_000_000 + i as u64);
    }
    (pubs, privs, stamps)
}

#[test]
fn payload_roundtrip() {
    let w = sample_wallets();
    let p = encode_payload(&w);
    assert_eq!(p.len(), 3 * 104);
    assert_eq!(&p[..32], &[1u8; 32][..]);
    assert_eq!(&p[96..104], &1_700_000_000u64.to_le_bytes()[..]);
    assert_eq!(decode_payload(&p), Some(w));
}

#[test]
fn payload_must_be_whole_entries() {
    assert_eq!(decode_payload(&[0u8; 103]), None);
    assert_eq!(decode_payload(&[]), Some((vec![], vec![], vec![])));
}

#[test]
fn encrypt_decrypt_roundtrip() {
    let key = [7u8; 32];
    let c = encrypt(b"hello wallet", &key).unwrap();
    assert_eq!(c.len(), 12 + 12 + 16);
    assert_eq!(decrypt(&c, &key).unwrap(), b"hello wallet".to_vec());
    let c2 = encrypt(b"hello wallet", &key).unwrap();
    assert_ne!(c[..12], c2[..12]);
}

#[test]
fn decrypt_rejects_tampering_wrong_key_and_short_input() {
    let key = [7u8; 32];
    let mut c = encrypt(b"data", &key).unwrap();
    assert!(matches!(decrypt(&c, &[8u8; 32]), Err(UglyError::DecryptionFailed)));
    let last = c.len() - 1;
    c[last] ^= 1;
    assert!(matches!(decrypt(&c, &key), Err(UglyError::DecryptionFailed)));
    assert!(matches!(decrypt(&[0u8; 11], &key), Err(UglyError::DecryptionFailed)));
}

#[test]
fn salts_differ() {
    assert_ne!(generate_salt(), generate_salt());
}

#[test]
fn derive_key_depends_on_salt() {
    let a = derive_key("pw", &[1u8; 16]).unwrap();
    let b = derive_key("pw", &[2u8; 16]).unwrap();
    assert_ne!(a, b);
}

#[test]
fn read_rejects_bad_headers() {
    assert!(matches!(read_encrypted(b"UGLY", "pw"), Err(UglyError::InvalidFileFormat)));
    let mut data = vec![0u8; 40];
    data[..4].copy_from_slice(b"NOPE");
    data[4] = 1;
    assert!(matches!(read_encrypted(&data, "pw"), Err(UglyError::InvalidFileFormat)));
    data[..4].copy_from_slice(b"UGLY");
    data[4] = 2;
    assert!(matches!(read_encrypted(&data, "pw"), Err(UglyError::InvalidFileFormat)));
}

#[test]
fn write_then_read_gives_the_entry() {
    let file = write_encrypted(&[3u8; 32], &[4u8; 64], 42, "secret").unwrap();
    assert_eq!(&file[..5], b"UGLY\x01");
    assert_eq!(file.len(), 153);
    let (pubs, privs, stamps) = read_encrypted(&file, "secret").unwrap();
    assert_eq!(pubs, vec![[3u8; 32]]);
    assert_eq!(privs, vec![[4u8; 64]]);
    assert_eq!(stamps, vec![42]);
}

#[test]
fn wrong_password_fails_to_decrypt() {
    let file = write_encrypted(&[3u8; 32], &[4u8; 64], 42, "secret").unwrap();
    assert!(matches!(read_encrypted(&file, "other"), Err(UglyError::DecryptionFailed)));
}

#[test]
fn append_to_new_file_reads_back() {
    let first = append_wallet_entry(None, &[1u8; 32], &[2u8; 64], 10, "pw").unwrap();
    let (pubs, privs, stamps) = read_encrypted(&first, "pw").unwrap();
    assert_eq!(pubs, vec![[1u8; 32]]);
    assert_eq!(privs, vec![[2u8; 64]]);
    assert_eq!(stamps, vec![10]);
}

#[test]
fn append_to_existing_file_grows_it() {
    let first = write_encrypted(&[1u8; 32], &[2u8; 64], 10, "pw").unwrap();
    let second = append_wallet_entry(Some(&first), &[5u8; 32], &[6u8; 64], 20, "pw").unwrap();
    assert_eq!(&second[..5], b"UGLY\x01");
    assert_eq!(second.len(), 21 + 12 + 2 * 104 + 16);
}

#[test]
fn append_with_wrong_password_fails() {
    let first = write_encrypted(&[1u8; 32], &[2u8; 64], 10, "pw").unwrap();
    assert!(matches!(
        append_wallet_entry(Some(&first), &[5u8; 32], &[6u8; 64], 20, "nope"),
        Err(UglyError::DecryptionFailed)
    ));
}

#[test]
fn contains_public_key_finds_stored_key() {
    let file = write_encrypted(&[3u8; 32], &[4u8; 64], 42, "pw").unwrap();
    assert!(contains_public_key(&file, "pw", &[3u8; 32]).unwrap());
}
