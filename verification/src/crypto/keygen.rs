//! Ed25519 keypair generation for Solana wallets.

use vstd::prelude::*;
use crate::crypto::base58::{base58_encode, encode};
use crate::bytes::{wipe, wipe_array};
use crate::crypto::entropy::os_random_bytes;

verus! {

/// The Ed25519 public key (compressed Edwards point) of a 32-byte secret seed.
pub uninterp spec fn ed25519_public_of(seed: Seq<u8>) -> Seq<u8>;

/// Calls `ed25519_dalek::SigningKey::from_bytes(seed).verifying_key().to_bytes()`.
/// The public key is a function of the seed alone; the contract names it
/// `ed25519_public_of` and claims nothing more.
#[verifier::external_body]
fn ed25519_public_key(seed: &[u8; 32]) -> (public_key: [u8; 32])
    ensures
        public_key@ == ed25519_public_of(seed@),
{
    ed25519_dalek::SigningKey::from_bytes(seed).verifying_key().to_bytes()
}

/// A wallet: the Ed25519 public key and the 64-byte keypair encoding
/// (32-byte secret seed followed by the 32-byte public key). Verus does not take a `Drop`
/// impl, so the keys are wiped by an explicit call (`wipe`, `wipe_keys`) when their holder is
/// done with them.
pub struct WalletKeyPair {
    pub public_key: [u8; 32],
    pub private_key: [u8; 64],
}

impl WalletKeyPair {
    /// The secret seed held in the first half of the private key.
    pub open spec fn seed(&self) -> Seq<u8> {
        self.private_key@.subrange(0, 32)
    }

    /// The pair is the keypair of its seed: the public key derives from the seed and the
    /// private key is the seed followed by the public key.
    pub open spec fn is_valid(&self) -> bool {
        &&& self.public_key@ == ed25519_public_of(self.seed())
        &&& self.private_key@ == self.seed() + self.public_key@
    }

    /// Both keys are all zero bytes.
    pub open spec fn is_zeroed(&self) -> bool {
        &&& forall|i: int| 0 <= i < 32 ==> self.public_key@[i] == 0
        &&& forall|i: int| 0 <= i < 64 ==> self.private_key@[i] == 0
    }

    /// Overwrites both keys with zeros, as the key material must not outlive its use.
    pub fn wipe(&mut self)
        ensures
            final(self).is_zeroed(),
    {
        wipe_array(&mut self.public_key);
        wipe_array(&mut self.private_key);
    }

    /// The Base58 address of the public key.
    pub fn public_key_base58(&self) -> (address: String)
        ensures
            address@ == base58_encode(self.public_key@),
    {
        encode(self.public_key.as_slice())
    }
}

/// The keypair whose secret seed is `seed`.
pub fn keypair_from_seed(seed: &[u8; 32]) -> (kp: WalletKeyPair)
    ensures
        kp.is_valid(),
        kp.seed() == seed@,
{
    let public_key = ed25519_public_key(seed);
    let mut private_key = [0u8; 64];
    let mut i: usize = 0;
    while i < 32
        invariant
            i <= 32,
            forall|j: int| 0 <= j < i ==> private_key@[j] == seed@[j],
            forall|j: int| 32 <= j < 32 + i ==> private_key@[j] == public_key@[j - 32],
        decreases 32 - i,
    {
        private_key[i] = seed[i];
        private_key[i + 32] = public_key[i];
        i = i + 1;
    }
    let kp = WalletKeyPair { public_key, private_key };
    assert(kp.seed() =~= seed@);
    assert(kp.private_key@ =~= kp.seed() + kp.public_key@);
    kp
}

fn random_seed() -> [u8; 32] {
    let mut bytes = os_random_bytes(32);
    let mut seed = [0u8; 32];
    let mut i: usize = 0;
    while i < 32
        invariant
            i <= 32,
            bytes@.len() == 32,
        decreases 32 - i,
    {
        seed[i] = bytes[i];
        i = i + 1;
    }
    wipe(&mut bytes);
    seed
}

/// Generates a single Ed25519 keypair from operating-system randomness.
pub fn generate_keypair() -> (kp: WalletKeyPair)
    ensures
        kp.is_valid(),
{
    let mut seed = random_seed();
    let kp = keypair_from_seed(&seed);
    wipe_array(&mut seed);
    kp
}

/// Regenerates every keypair of a pre-allocated batch in place.
pub fn generate_keypair_batch(batch: &mut [WalletKeyPair])
    ensures
        final(batch)@.len() == old(batch)@.len(),
        forall|i: int| 0 <= i < final(batch)@.len() ==> (#[trigger] final(batch)@[i]).is_valid(),
{
    let n = batch.len();
    let mut i: usize = 0;
    while i < n
        invariant
            n == batch@.len(),
            i <= n,
            forall|j: int| 0 <= j < i ==> (#[trigger] batch@[j]).is_valid(),
        decreases n - i,
    {
        let kp = generate_keypair();
        batch[i] = kp;
        i = i + 1;
    }
}

/// Creates a batch of `size` zero-filled keypairs, ready to be regenerated in place.
pub fn new_batch_buffer(size: usize) -> (batch: Vec<WalletKeyPair>)
    ensures
        batch@.len() == size,
        forall|i: int| 0 <= i < size ==> (#[trigger] batch@[i]).is_zeroed(),
{
    let mut batch: Vec<WalletKeyPair> = Vec::with_capacity(size);
    let mut i: usize = 0;
    while i < size
        invariant
            i <= size,
            batch@.len() == i,
            forall|j: int| 0 <= j < i ==> (#[trigger] batch@[j]).is_zeroed(),
        decreases size - i,
    {
        let kp = WalletKeyPair { public_key: [0u8; 32], private_key: [0u8; 64] };
        assert(kp.is_zeroed());
        batch.push(kp);
        i = i + 1;
    }
    batch
}

/// Overwrites the keys of every pair in the batch with zeros, keeping its length.
pub fn wipe_keys(batch: &mut Vec<WalletKeyPair>)
    ensures
        final(batch)@.len() == old(batch)@.len(),
        forall|i: int| 0 <= i < final(batch)@.len() ==> (#[trigger] final(batch)@[i]).is_zeroed(),
{
    let n = batch.len();
    let mut i: usize = 0;
    while i < n
        invariant
            n == batch@.len(),
            i <= n,
            forall|j: int| 0 <= j < i ==> (#[trigger] batch@[j]).is_zeroed(),
        decreases n - i,
    {
        batch[i].wipe();
        i = i + 1;
    }
}

} // verus!
