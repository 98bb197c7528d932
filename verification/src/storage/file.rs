//! The encrypted wallet file.
//!
//! ```text
//! [0..4]   magic "UGLY"
//! [4..5]   version 0x01
//! [5..21]  Argon2 salt (16 bytes)
//! [21..]   12-byte nonce + AES-256-GCM ciphertext of the payload
//! ```
//! The payload is a sequence of 104-byte entries: public key (32), private key (64),
//! Unix timestamp (8, little endian).

use vstd::prelude::*;
use vstd::bytes::{spec_u64_from_le_bytes, spec_u64_to_le_bytes, u64_from_le_bytes, u64_to_le_bytes, lemma_auto_spec_u64_to_from_le_bytes};
use crate::bytes::{append_bytes, array16_at, array32_at, array64_at, bytes_equal, wipe, wipe_array};
use crate::error::UglyError;
use crate::storage::encrypt::{
    aes256gcm_seal, decrypt, derive_key, encrypt, generate_salt, open_sealed, password_fits, wallet_key,
    AES_GCM_P_MAX, AES_GCM_TAG_LEN, NONCE_LEN,
};

verus! {

/// File format version byte.
pub const VERSION: u8 = 0x01;
/// Length of the Argon2 salt stored in the header.
pub const SALT_LEN: usize = 16;
/// Magic, version and salt.
pub const HEADER_LEN: usize = 4 + 1 + SALT_LEN;
/// Size of one payload entry: public key, private key, timestamp.
pub const ENTRY_SIZE: usize = 32 + 64 + 8;

/// Decrypted wallet data: public keys, private keys and timestamps, index by index.
pub type DecryptedWallets = (Vec<[u8; 32]>, Vec<[u8; 64]>, Vec<u64>);

/// One wallet as plain values: public key, private key, timestamp.
pub type WalletEntry = (Seq<u8>, Seq<u8>, u64);

/// Why reading a wallet file fails.
#[derive(Clone, Copy, Debug, PartialEq, Eq, Structural)]
pub enum ReadFailure {
    /// Too short, or the magic or version does not match.
    InvalidFormat,
    /// The key could not be derived from the password.
    KeyDerivation,
    /// Wrong password, corrupted ciphertext, or a payload that is not whole entries.
    Decryption,
}

/// The magic bytes "UGLY".
pub open spec fn magic() -> Seq<u8> {
    seq![0x55u8, 0x47u8, 0x4cu8, 0x59u8]
}

/// The bytes of one payload entry.
pub open spec fn entry_bytes(e: WalletEntry) -> Seq<u8> {
    e.0 + e.1 + spec_u64_to_le_bytes(e.2)
}

/// Both keys have their fixed lengths.
pub open spec fn entry_wf(e: WalletEntry) -> bool {
    e.0.len() == 32 && e.1.len() == 64
}

/// Every entry has well-sized keys.
pub open spec fn entries_wf(es: Seq<WalletEntry>) -> bool {
    forall|i: int| 0 <= i < es.len() ==> entry_wf(#[trigger] es[i])
}

/// The payload holding the given entries, in order.
pub open spec fn payload_of(es: Seq<WalletEntry>) -> Seq<u8>
    decreases es.len(),
{
    if es.len() == 0 {
        seq![]
    } else {
        payload_of(es.drop_last()) + entry_bytes(es.last())
    }
}

/// The `i`-th entry read from a payload.
pub open spec fn entry_at(p: Seq<u8>, i: int) -> WalletEntry {
    let o = 104 * i;
    (p.subrange(o, o + 32), p.subrange(o + 32, o + 96), spec_u64_from_le_bytes(p.subrange(o + 96, o + 104)))
}

/// The entries of a payload; `None` unless it is made of whole entries.
pub open spec fn entries_of(p: Seq<u8>) -> Option<Seq<WalletEntry>> {
    if p.len() % 104 != 0 {
        None
    } else {
        Some(Seq::new(p.len() / 104, |i: int| entry_at(p, i)))
    }
}

/// A wallet file made of the header with the given salt, then the sealed payload.
pub open spec fn container(salt: Seq<u8>, sealed: Seq<u8>) -> Seq<u8> {
    magic() + seq![VERSION] + salt + sealed
}

/// Long enough for header and nonce, with the right magic and version.
pub open spec fn header_ok(file: Seq<u8>) -> bool {
    &&& file.len() >= HEADER_LEN + NONCE_LEN
    &&& file.subrange(0, 4) == magic()
    &&& file[4] == VERSION
}

/// `file` is laid out as the format says, holding `payload` only encrypted: magic, version,
/// some 16-byte salt, some 12-byte nonce, then the AES-256-GCM sealing of the payload under the
/// key derived from the password and that salt.
pub open spec fn sealed_file(file: Seq<u8>, password: Seq<char>, payload: Seq<u8>) -> bool {
    exists|salt: Seq<u8>, nonce: Seq<u8>|
        #![trigger container(salt, nonce + aes256gcm_seal(wallet_key(password, salt), nonce, payload))]
        salt.len() == SALT_LEN && nonce.len() == NONCE_LEN
            && file == container(salt, nonce + aes256gcm_seal(wallet_key(password, salt), nonce, payload))
}

/// What reading a wallet file with a password yields.
pub open spec fn read_outcome(file: Seq<u8>, password: Seq<char>) -> Result<Seq<WalletEntry>, ReadFailure> {
    if !header_ok(file) {
        Err(ReadFailure::InvalidFormat)
    } else if !password_fits(password) {
        Err(ReadFailure::KeyDerivation)
    } else {
        match open_sealed(wallet_key(password, file.subrange(5, 21)), file.subrange(21, file.len() as int)) {
            None => Err(ReadFailure::Decryption),
            Some(p) => match entries_of(p) {
                None => Err(ReadFailure::Decryption),
                Some(es) => Ok(es),
            },
        }
    }
}

/// The library error that reports a read failure.
pub open spec fn failure_matches(e: UglyError, f: ReadFailure) -> bool {
    match f {
        ReadFailure::InvalidFormat => e is InvalidFileFormat,
        ReadFailure::KeyDerivation => e is EncryptionFailed,
        ReadFailure::Decryption => e is DecryptionFailed,
    }
}

/// The three vectors have the same length.
pub open spec fn wallets_wf(w: DecryptedWallets) -> bool {
    w.0@.len() == w.1@.len() && w.0@.len() == w.2@.len()
}

/// The entries held by decrypted wallet data.
pub open spec fn wallets_model(w: DecryptedWallets) -> Seq<WalletEntry> {
    Seq::new(w.0@.len(), |i: int| (w.0@[i]@, w.1@[i]@, w.2@[i]))
}

proof fn lemma_model_wf(w: DecryptedWallets)
    requires
        wallets_wf(w),
    ensures
        entries_wf(wallets_model(w)),
        wallets_model(w).len() == w.0@.len(),
{
}

/// The payload of `n` entries is `104 * n` bytes long.
proof fn lemma_payload_len(es: Seq<WalletEntry>)
    requires
        entries_wf(es),
    ensures
        payload_of(es).len() == 104 * es.len(),
    decreases es.len(),
{
    if es.len() > 0 {
        lemma_auto_spec_u64_to_from_le_bytes();
        assert(entries_wf(es.drop_last())) by {
            assert forall|i: int| 0 <= i < es.drop_last().len() implies entry_wf(#[trigger] es.drop_last()[i]) by {
                assert(es.drop_last()[i] == es[i]);
            }
        }
        lemma_payload_len(es.drop_last());
        assert(entry_wf(es[es.len() - 1]));
    }
}

/// Reading entry `i` of the payload of `es` gives back `es[i]`.
proof fn lemma_entry_at_payload(es: Seq<WalletEntry>, i: int)
    requires
        entries_wf(es),
        0 <= i < es.len(),
    ensures
        entry_at(payload_of(es), i) == es[i],
    decreases es.len(),
{
    lemma_auto_spec_u64_to_from_le_bytes();
    let n = es.len();
    let init = es.drop_last();
    assert(entries_wf(init)) by {
        assert forall|k: int| 0 <= k < init.len() implies entry_wf(#[trigger] init[k]) by {
            assert(init[k] == es[k]);
        }
    }
    lemma_payload_len(init);
    let q = payload_of(init);
    let last = es.last();
    assert(entry_wf(es[n - 1]));
    let eb = entry_bytes(last);
    let p = payload_of(es);
    assert(p == q + eb);
    let o = 104 * i;
    if i < n - 1 {
        lemma_entry_at_payload(init, i);
        assert(p.subrange(o, o + 32) =~= q.subrange(o, o + 32));
        assert(p.subrange(o + 32, o + 96) =~= q.subrange(o + 32, o + 96));
        assert(p.subrange(o + 96, o + 104) =~= q.subrange(o + 96, o + 104));
        assert(init[i] == es[i]);
    } else {
        assert(o == q.len());
        assert(p.subrange(o, o + 32) =~= last.0);
        assert(p.subrange(o + 32, o + 96) =~= last.1);
        assert(p.subrange(o + 96, o + 104) =~= spec_u64_to_le_bytes(last.2));
    }
}

/// Law: the entries read back from the payload of well-formed entries are those entries.
pub proof fn lemma_payload_roundtrip(es: Seq<WalletEntry>)
    requires
        entries_wf(es),
    ensures
        entries_of(payload_of(es)) == Some(es),
{
    lemma_payload_len(es);
    let p = payload_of(es);
    assert(p.len() % 104 == 0 && p.len() / 104 == es.len()) by (nonlinear_arith)
        requires p.len() == 104 * es.len();
    assert forall|i: int| 0 <= i < es.len() implies entry_at(p, i) == es[i] by {
        lemma_entry_at_payload(es, i);
    }
    assert(Seq::new(p.len() / 104, |i: int| entry_at(p, i)) =~= es);
}

/// Law: a payload made of whole entries is exactly the payload of the entries read from it.
pub proof fn lemma_payload_canonical(p: Seq<u8>)
    requires
        entries_of(p) is Some,
    ensures
        entries_wf(entries_of(p)->Some_0),
        payload_of(entries_of(p)->Some_0) == p,
{
    let es = entries_of(p)->Some_0;
    let n = es.len();
    assert(p.len() == 104 * n) by (nonlinear_arith)
        requires p.len() % 104 == 0, n == p.len() / 104;
    lemma_payload_prefix(p, n);
    assert(p.subrange(0, 104 * n as int) =~= p);
}

proof fn lemma_payload_prefix(p: Seq<u8>, k: nat)
    requires
        104 * k <= p.len(),
    ensures
        ({
            let es = Seq::new(k, |i: int| entry_at(p, i));
            entries_wf(es) && payload_of(es) == p.subrange(0, 104 * k as int)
        }),
    decreases k,
{
    lemma_auto_spec_u64_to_from_le_bytes();
    let es = Seq::new(k, |i: int| entry_at(p, i));
    if k > 0 {
        lemma_payload_prefix(p, (k - 1) as nat);
        let prev = Seq::new((k - 1) as nat, |i: int| entry_at(p, i));
        assert(es.drop_last() =~= prev);
        let o = 104 * (k - 1);
        let tail = p.subrange(o + 96, o + 104);
        assert(tail.len() == 8);
        assert(spec_u64_to_le_bytes(spec_u64_from_le_bytes(tail)) == tail);
        assert(entry_bytes(es.last()) =~= p.subrange(o, o + 104));
        assert(p.subrange(0, o) + p.subrange(o, o + 104) =~= p.subrange(0, 104 * k as int));
    } else {
        assert(payload_of(es) =~= p.subrange(0, 0));
    }
}

/// Law: a file built from a 16-byte salt and a sealed payload of at least a nonce passes the
/// header checks, and its salt and sealed part are read back unchanged.
pub proof fn lemma_container_roundtrip(salt: Seq<u8>, sealed: Seq<u8>)
    requires
        salt.len() == SALT_LEN,
        sealed.len() >= NONCE_LEN,
    ensures
        header_ok(container(salt, sealed)),
        container(salt, sealed).subrange(5, 21) == salt,
        container(salt, sealed).subrange(21, container(salt, sealed).len() as int) == sealed,
{
    let f = container(salt, sealed);
    assert(f.subrange(0, 4) =~= magic());
    assert(f.subrange(5, 21) =~= salt);
    assert(f.subrange(21, f.len() as int) =~= sealed);
}

/// Checks length, magic and version of a wallet file.
fn has_valid_header(file_data: &[u8]) -> (ok: bool)
    ensures
        ok == header_ok(file_data@),
{
    if file_data.len() < HEADER_LEN + NONCE_LEN {
        return false;
    }
    let ok = file_data[0] == 0x55u8 && file_data[1] == 0x47u8 && file_data[2] == 0x4cu8
        && file_data[3] == 0x59u8 && file_data[4] == VERSION;
    proof {
        if ok {
            assert(file_data@.subrange(0, 4) =~= magic());
        } else if file_data@.subrange(0, 4) == magic() {
            assert(file_data@[0] == file_data@.subrange(0, 4)[0]);
            assert(file_data@[1] == file_data@.subrange(0, 4)[1]);
            assert(file_data@[2] == file_data@.subrange(0, 4)[2]);
            assert(file_data@[3] == file_data@.subrange(0, 4)[3]);
        }
    }
    ok
}

/// Serializes wallet entries into the payload format.
pub fn encode_payload(wallets: &DecryptedWallets) -> (payload: Vec<u8>)
    requires
        wallets_wf(*wallets),
    ensures
        payload@ == payload_of(wallets_model(*wallets)),
{
    let ghost model = wallets_model(*wallets);
    let n = wallets.0.len();
    let mut out: Vec<u8> = Vec::new();
    let mut i: usize = 0;
    while i < n
        invariant
            n == wallets.0@.len(),
            wallets_wf(*wallets),
            model == wallets_model(*wallets),
            i <= n,
            out@ == payload_of(model.take(i as int)),
        decreases n - i,
    {
        append_bytes(&mut out, wallets.0[i].as_slice());
        append_bytes(&mut out, wallets.1[i].as_slice());
        let ts = u64_to_le_bytes(wallets.2[i]);
        append_bytes(&mut out, ts.as_slice());
        proof {
            assert(model.take(i + 1).drop_last() =~= model.take(i as int));
            assert(model.take(i + 1).last() == model[i as int]);
        }
        i = i + 1;
    }
    assert(model.take(n as int) =~= model);
    out
}

/// Parses a payload into wallet entries; `None` unless it is made of whole entries.
pub fn decode_payload(payload: &[u8]) -> (res: Option<DecryptedWallets>)
    ensures
        match res {
            Some(w) => wallets_wf(w) && entries_of(payload@) == Some(wallets_model(w)),
            None => entries_of(payload@) is None,
        },
{
    let len = payload.len();
    if len % ENTRY_SIZE != 0 {
        return None;
    }
    let count = len / ENTRY_SIZE;
    assert(len == 104 * count) by (nonlinear_arith)
        requires len % 104 == 0, count == len / 104;
    let mut pubs: Vec<[u8; 32]> = Vec::with_capacity(count);
    let mut privs: Vec<[u8; 64]> = Vec::with_capacity(count);
    let mut stamps: Vec<u64> = Vec::with_capacity(count);
    let mut i: usize = 0;
    let mut off: usize = 0;
    while i < count
        invariant
            len == payload@.len(),
            len == 104 * count,
            i <= count,
            off == 104 * i,
            pubs@.len() == i,
            privs@.len() == i,
            stamps@.len() == i,
            forall|j: int| 0 <= j < i ==> (pubs@[j]@, privs@[j]@, stamps@[j]) == #[trigger] entry_at(payload@, j),
        decreases count - i,
    {
        let pk = array32_at(payload, off);
        let sk = array64_at(payload, off + 32);
        let ts = u64_from_le_bytes(vstd::slice::slice_subrange(payload, off + 96, off + 104));
        pubs.push(pk);
        privs.push(sk);
        stamps.push(ts);
        i = i + 1;
        off = off + ENTRY_SIZE;
    }
    let w = (pubs, privs, stamps);
    assert(Seq::new((len / 104) as nat, |i: int| entry_at(payload@, i)) =~= wallets_model(w));
    Some(w)
}

/// Builds the file bytes: header with `salt`, then `sealed` (nonce + ciphertext).
fn build_container(salt: &[u8; 16], sealed: &[u8]) -> (file: Vec<u8>)
    ensures
        file@ == container(salt@, sealed@),
{
    let mut file: Vec<u8> = Vec::new();
    file.push(0x55u8);
    file.push(0x47u8);
    file.push(0x4cu8);
    file.push(0x59u8);
    file.push(VERSION);
    append_bytes(&mut file, salt.as_slice());
    append_bytes(&mut file, sealed);
    assert(file@ =~= container(salt@, sealed@));
    file
}

/// Encrypts a payload under a fresh salt and nonce and frames it as a wallet file.
fn seal_payload(payload: &[u8], password: &str) -> (res: Result<Vec<u8>, UglyError>)
    ensures
        res is Ok <==> password_fits(password@) && payload@.len() <= AES_GCM_P_MAX,
        res matches Ok(file) ==> ({
            &&& sealed_file(file@, password@, payload@)
            &&& file@.len() == HEADER_LEN + NONCE_LEN + payload@.len() + AES_GCM_TAG_LEN
            &&& header_ok(file@)
            &&& open_sealed(wallet_key(password@, file@.subrange(5, 21)), file@.subrange(21, file@.len() as int))
                == Some(payload@)
        }),
        res matches Err(e) ==> e is EncryptionFailed,
{
    let salt = generate_salt();
    let key = match derive_key(password, &salt) {
        Ok(k) => k,
        Err(e) => return Err(e),
    };
    let encrypted = match encrypt(payload, &key) {
        Ok(c) => c,
        Err(e) => return Err(e),
    };
    let file = build_container(&salt, encrypted.as_slice());
    proof {
        lemma_container_roundtrip(salt@, encrypted@);
        let nonce = encrypted@.subrange(0, NONCE_LEN as int);
        assert(encrypted@ =~= nonce + encrypted@.subrange(NONCE_LEN as int, encrypted@.len() as int));
        assert(file@ == container(salt@, nonce + aes256gcm_seal(wallet_key(password@, salt@), nonce, payload@)));
    }
    Ok(file)
}

/// Encrypts one wallet entry into the bytes of a new wallet file.
pub fn write_encrypted(public_key: &[u8; 32], private_key: &[u8; 64], timestamp: u64, password: &str) -> (res: Result<Vec<u8>, UglyError>)
    ensures
        res is Ok <==> password_fits(password@),
        res matches Ok(file) ==> read_outcome(file@, password@) == Ok::<Seq<WalletEntry>, ReadFailure>(seq![(public_key@, private_key@, timestamp)]),
        res matches Ok(file) ==> sealed_file(file@, password@, payload_of(seq![(public_key@, private_key@, timestamp)])),
        res matches Ok(file) ==> file@.len() == HEADER_LEN + NONCE_LEN + ENTRY_SIZE + AES_GCM_TAG_LEN,
        res matches Err(e) ==> e is EncryptionFailed,
{
    let mut wallets: DecryptedWallets = (Vec::new(), Vec::new(), Vec::new());
    wallets.0.push(*public_key);
    wallets.1.push(*private_key);
    wallets.2.push(timestamp);
    let ghost es = wallets_model(wallets);
    assert(es =~= seq![(public_key@, private_key@, timestamp)]);
    let mut plaintext = encode_payload(&wallets);
    proof {
        lemma_payload_len(es);
        lemma_payload_roundtrip(es);
    }
    let res = seal_payload(plaintext.as_slice(), password);
    wipe(&mut plaintext);
    res
}

/// The entries already stored before an append: none without a file, else what the file reads as.
pub open spec fn prior_entries(existing_file: Option<Seq<u8>>, password: Seq<char>) -> Result<Seq<WalletEntry>, ReadFailure> {
    match existing_file {
        None => Ok(seq![]),
        Some(f) => read_outcome(f, password),
    }
}

/// Reads and decrypts wallet data from the bytes of a wallet file.
/// Returns (public_keys, private_keys, timestamps).
pub fn read_encrypted(file_data: &[u8], password: &str) -> (res: Result<DecryptedWallets, UglyError>)
    ensures
        match res {
            Ok(w) => wallets_wf(w) && read_outcome(file_data@, password@) == Ok::<Seq<WalletEntry>, ReadFailure>(wallets_model(w)),
            Err(e) => read_outcome(file_data@, password@) matches Err(f) && failure_matches(e, f),
        },
{
    if !has_valid_header(file_data) {
        return Err(UglyError::InvalidFileFormat);
    }
    let salt = array16_at(file_data, 5);
    let key = match derive_key(password, &salt) {
        Ok(k) => k,
        Err(e) => return Err(e),
    };
    let encrypted = vstd::slice::slice_subrange(file_data, HEADER_LEN, file_data.len());
    let plaintext = match decrypt(encrypted, &key) {
        Ok(p) => p,
        Err(e) => return Err(e),
    };
    match decode_payload(plaintext.as_slice()) {
        Some(w) => Ok(w),
        None => Err(UglyError::DecryptionFailed),
    }
}

/// Appends a wallet entry to the contents of an existing wallet file (or starts a new one)
/// and returns the re-encrypted file bytes, under a new salt.
pub fn append_wallet_entry(
    existing_file: Option<&[u8]>,
    public_key: &[u8; 32],
    private_key: &[u8; 64],
    timestamp: u64,
    password: &str,
) -> (res: Result<Vec<u8>, UglyError>)
    ensures
        ({
            let prior = prior_entries(
                match existing_file { Some(f) => Some(f@), None => None },
                password@,
            );
            &&& prior matches Err(f) ==> res matches Err(e) && failure_matches(e, f)
            &&& prior matches Ok(es) ==> (res is Ok <==> password_fits(password@) && 104 * (es.len() + 1) <= AES_GCM_P_MAX)
            &&& prior matches Ok(es) ==> (res matches Ok(file) ==> read_outcome(file@, password@) == Ok::<Seq<WalletEntry>, ReadFailure>(es.push((public_key@, private_key@, timestamp))))
            &&& prior matches Ok(es) ==> (res matches Ok(file) ==> sealed_file(file@, password@, payload_of(es.push((public_key@, private_key@, timestamp)))))
            &&& prior matches Ok(es) ==> (res matches Ok(file) ==> file@.len() == HEADER_LEN + NONCE_LEN + ENTRY_SIZE * (es.len() + 1) + AES_GCM_TAG_LEN)
            &&& prior is Ok ==> (res matches Err(e) ==> e is EncryptionFailed)
        }),
{
    let mut wallets: DecryptedWallets = match existing_file {
        Some(data) => match read_encrypted(data, password) {
            Ok(w) => w,
            Err(e) => return Err(e),
        },
        None => (Vec::new(), Vec::new(), Vec::new()),
    };
    let ghost prior = wallets_model(wallets);
    proof {
        lemma_model_wf(wallets);
        if existing_file is None {
            assert(prior =~= Seq::<WalletEntry>::empty());
        }
    }
    wallets.0.push(*public_key);
    wallets.1.push(*private_key);
    wallets.2.push(timestamp);
    let ghost es = wallets_model(wallets);
    assert(es =~= prior.push((public_key@, private_key@, timestamp)));
    let mut plaintext = encode_payload(&wallets);
    proof {
        lemma_model_wf(wallets);
        lemma_payload_len(es);
        lemma_payload_roundtrip(es);
    }
    let res = seal_payload(plaintext.as_slice(), password);
    wipe(&mut plaintext);
    wipe_private_keys(&mut wallets.1);
    res
}

/// Overwrites every private key of a decrypted file with zeros.
fn wipe_private_keys(keys: &mut Vec<[u8; 64]>)
    ensures
        final(keys)@.len() == old(keys)@.len(),
        forall|i: int, j: int| 0 <= i < final(keys)@.len() && 0 <= j < 64 ==> #[trigger] final(keys)@[i]@[j] == 0,
{
    let n = keys.len();
    let mut i: usize = 0;
    while i < n
        invariant
            n == keys@.len(),
            i <= n,
            forall|k: int, j: int| 0 <= k < i && 0 <= j < 64 ==> #[trigger] keys@[k]@[j] == 0,
        decreases n - i,
    {
        wipe_array(&mut keys[i]);
        i = i + 1;
    }
}

/// Some entry has the given public key.
pub open spec fn holds_public_key(es: Seq<WalletEntry>, public_key: Seq<u8>) -> bool {
    exists|i: int| 0 <= i < es.len() && (#[trigger] es[i]).0 == public_key
}

/// Whether a wallet file holds the given public key.
pub fn contains_public_key(file_data: &[u8], password: &str, public_key: &[u8; 32]) -> (res: Result<bool, UglyError>)
    ensures
        match res {
            Ok(found) => read_outcome(file_data@, password@) matches Ok(es)
                && found == holds_public_key(es, public_key@),
            Err(e) => read_outcome(file_data@, password@) matches Err(f) && failure_matches(e, f),
        },
{
    let wallets = match read_encrypted(file_data, password) {
        Ok(w) => w,
        Err(e) => return Err(e),
    };
    let ghost es = wallets_model(wallets);
    let n = wallets.0.len();
    let mut i: usize = 0;
    while i < n
        invariant
            n == wallets.0@.len(),
            es == wallets_model(wallets),
            read_outcome(file_data@, password@) == Ok::<Seq<WalletEntry>, ReadFailure>(es),
            i <= n,
            forall|j: int| 0 <= j < i ==> (#[trigger] es[j]).0 != public_key@,
        decreases n - i,
    {
        if bytes_equal(wallets.0[i].as_slice(), public_key.as_slice()) {
            assert(es[i as int].0 == public_key@);
            assert(holds_public_key(es, public_key@));
            return Ok(true);
        }
        i = i + 1;
    }
    Ok(false)
}

} // verus!
