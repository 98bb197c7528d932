//! Small byte-buffer helpers.

use vstd::prelude::*;
use zeroize::Zeroize;

verus! {

/// Appends `src` to `dst`.
pub fn append_bytes(dst: &mut Vec<u8>, src: &[u8])
    ensures
        final(dst)@ == old(dst)@ + src@,
{
    let ghost start = dst@;
    let n = src.len();
    let mut i: usize = 0;
    while i < n
        invariant
            n == src@.len(),
            i <= n,
            dst@ == start + src@.subrange(0, i as int),
        decreases n - i,
    {
        dst.push(src[i]);
        i = i + 1;
        assert(dst@ =~= start + src@.subrange(0, i as int));
    }
    assert(src@.subrange(0, n as int) =~= src@);
}

/// Copies the bytes `src[start..start + 12]` into an array.
pub fn array12_at(src: &[u8], start: usize) -> (out: [u8; 12])
    requires
        start + 12 <= src@.len(),
    ensures
        out@ == src@.subrange(start as int, start + 12),
{
    let mut out = [0u8; 12];
    let n = src.len();
    let mut i: usize = 0;
    while i < 12
        invariant
            n == src@.len(),
            start + 12 <= src@.len(),
            i <= 12,
            forall|j: int| 0 <= j < i ==> out@[j] == src@[start + j],
        decreases 12 - i,
    {
        out[i] = src[start + i];
        i = i + 1;
    }
    assert(out@ =~= src@.subrange(start as int, start + 12));
    out
}

/// Copies the bytes `src[start..start + 16]` into an array.
pub fn array16_at(src: &[u8], start: usize) -> (out: [u8; 16])
    requires
        start + 16 <= src@.len(),
    ensures
        out@ == src@.subrange(start as int, start + 16),
{
    let mut out = [0u8; 16];
    let n = src.len();
    let mut i: usize = 0;
    while i < 16
        invariant
            n == src@.len(),
            start + 16 <= src@.len(),
            i <= 16,
            forall|j: int| 0 <= j < i ==> out@[j] == src@[start + j],
        decreases 16 - i,
    {
        out[i] = src[start + i];
        i = i + 1;
    }
    assert(out@ =~= src@.subrange(start as int, start + 16));
    out
}

/// Copies the bytes `src[start..start + 32]` into an array.
pub fn array32_at(src: &[u8], start: usize) -> (out: [u8; 32])
    requires
        start + 32 <= src@.len(),
    ensures
        out@ == src@.subrange(start as int, start + 32),
{
    let mut out = [0u8; 32];
    let n = src.len();
    let mut i: usize = 0;
    while i < 32
        invariant
            n == src@.len(),
            start + 32 <= src@.len(),
            i <= 32,
            forall|j: int| 0 <= j < i ==> out@[j] == src@[start + j],
        decreases 32 - i,
    {
        out[i] = src[start + i];
        i = i + 1;
    }
    assert(out@ =~= src@.subrange(start as int, start + 32));
    out
}

/// Copies the bytes `src[start..start + 64]` into an array.
pub fn array64_at(src: &[u8], start: usize) -> (out: [u8; 64])
    requires
        start + 64 <= src@.len(),
    ensures
        out@ == src@.subrange(start as int, start + 64),
{
    let mut out = [0u8; 64];
    let n = src.len();
    let mut i: usize = 0;
    while i < 64
        invariant
            n == src@.len(),
            start + 64 <= src@.len(),
            i <= 64,
            forall|j: int| 0 <= j < i ==> out@[j] == src@[start + j],
        decreases 64 - i,
    {
        out[i] = src[start + i];
        i = i + 1;
    }
    assert(out@ =~= src@.subrange(start as int, start + 64));
    out
}

/// Whether two byte strings are equal.
pub fn bytes_equal(a: &[u8], b: &[u8]) -> (eq: bool)
    ensures
        eq == (a@ == b@),
{
    if a.len() != b.len() {
        return false;
    }
    let n = a.len();
    let mut i: usize = 0;
    while i < n
        invariant
            n == a@.len(),
            n == b@.len(),
            i <= n,
            forall|j: int| 0 <= j < i ==> a@[j] == b@[j],
        decreases n - i,
    {
        if a[i] != b[i] {
            return false;
        }
        i = i + 1;
    }
    assert(a@ =~= b@);
    true
}

/// Calls `<Vec<u8> as zeroize::Zeroize>::zeroize`: the bytes and the spare capacity are
/// overwritten with zeros by volatile writes, then the vector is cleared. The contract states
/// the final length; that the freed memory holds zeros is not a property of the value.
#[verifier::external_body]
pub(crate) fn wipe(buf: &mut Vec<u8>)
    ensures
        final(buf)@.len() == 0,
{
    buf.zeroize();
}

/// Calls `<[u8; N] as zeroize::Zeroize>::zeroize`: every byte of the array is overwritten
/// with zero by a volatile write.
#[verifier::external_body]
pub(crate) fn wipe_array<const N: usize>(a: &mut [u8; N])
    ensures
        forall|i: int| 0 <= i < N ==> #[trigger] final(a)@[i] == 0,
{
    a.zeroize();
}

} // verus!
