use ugly::crypto::base58::{encode, encode_into};
use ugly::crypto::keygen::{
    generate_keypair, generate_keypair_batch, keypair_from_seed, new_batch_buffer, wipe_keys,
    WalletKeyPair,
};
use ugly::crypto::matcher::matches_prefix;

fn hex32(s: &str) -> [u8; 32] {
    let mut out = [0u8; 32];
    for i in 0..32 {
        out[i] = u8::from_str_radix(&s[2 * i..2 * i + 2], 16).unwrap();
    }
    out
}

#[test]
fn base58_known_vector() {
    assert_eq!(encode(&[0x04, 0x30, 0x5e, 0x2b, 0x24, 0x73, 0xf0, 0x58]), "he11owor1d");
}

#[test]
fn base58_leading_zeros_and_empty() {
    assert_eq!(encode(&[]), "");
    assert_eq!(encode(&[0, 0, 1]), "112");
    assert_eq!(encode(&[0]), "1");
    assert_eq!(encode(&[57]), "z");
    assert_eq!(encode(&[58]), "21");
}

#[test]
fn base58_encode_into_appends() {
    let mut buf = String::from("pre:");
    encode_into(&[0, 0, 1], &mut buf);
    assert_eq!(buf, "pre:112");
}

#[test]
fn prefix_matching() {
    assert!(matches_prefix("modaXk7vH3", "moda"));
    assert!(!matches_prefix("modaXk7vH3", "Moda"));
    assert!(!matches_prefix("mo", "moda"));
    assert!(matches_prefix("anything", ""));
    assert!(matches_prefix("moda", "moda"));
}

#[test]
fn keypair_from_rfc8032_seed() {
    let seed = hex32("9d61b19deffd5a60ba844af492ec2cc44449c5697b326919703bac031cae7f60");
    let kp = keypair_from_seed(&seed);
    assert_eq!(kp.public_key, hex32("d75a980182b10ab7d54bfed3c964073a0ee172f3daa62325af021a68f707511a"));
    assert_eq!(&kp.private_key[..32], &seed[..]);
    assert_eq!(&kp.private_key[32..], &kp.public_key[..]);
    assert_eq!(kp.public_key_base58(), encode(&kp.public_key));
}

#[test]
fn generated_keypair_is_consistent() {
    let kp = generate_keypair();
    let mut seed = [0u8; 32];
    seed.copy_from_slice(&kp.private_key[..32]);
    let again = keypair_from_seed(&seed);
    assert_eq!(again.public_key, kp.public_key);
    assert_eq!(again.private_key, kp.private_key);
}

#[test]
fn batch_buffer_is_zeroed_and_regenerated() {
    let mut batch: Vec<WalletKeyPair> = new_batch_buffer(4);
    assert_eq!(batch.len(), 4);
    assert!(batch.iter().all(|kp| kp.public_key == [0u8; 32] && kp.private_key == [0u8; 64]));
    generate_keypair_batch(&mut batch);
    assert_eq!(batch.len(), 4);
    assert!(batch.iter().all(|kp| kp.public_key != [0u8; 32] && kp.private_key[32..] == kp.public_key[..]));
    assert_ne!(batch[0].public_key, batch[1].public_key);
}

#[test]
fn wiping_zeroes_both_keys() {
    let mut kp = keypair_from_seed(&[7u8; 32]);
    assert_ne!(kp.private_key, [0u8; 64]);
    kp.wipe();
    assert_eq!(kp.public_key, [0u8; 32]);
    assert_eq!(kp.private_key, [0u8; 64]);

    let mut batch = new_batch_buffer(3);
    generate_keypair_batch(&mut batch);
    wipe_keys(&mut batch);
    assert_eq!(batch.len(), 3);
    assert!(batch.iter().all(|kp| kp.public_key == [0u8; 32] && kp.private_key == [0u8; 64]));
}
