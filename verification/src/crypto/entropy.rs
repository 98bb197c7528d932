//! Operating-system randomness.

use vstd::prelude::*;
use rand_core::RngCore;

verus! {

/// Calls `rand_core::OsRng.fill_bytes` on a fresh buffer of `len` bytes. The bytes come
/// from the operating system's entropy source, so the contract states only their number.
/// `fill_bytes` panics when the operating system cannot deliver randomness; that depends on
/// the machine, not on the argument, and is not excluded here.
#[verifier::external_body]
pub(crate) fn os_random_bytes(len: usize) -> (bytes: Vec<u8>)
    ensures
        bytes@.len() == len,
{
    let mut bytes = vec![0u8; len];
    rand_core::OsRng.fill_bytes(&mut bytes);
    bytes
}

} // verus!
