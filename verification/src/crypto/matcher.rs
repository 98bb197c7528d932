//! Prefix matching of encoded addresses against a user pattern.

use vstd::prelude::*;
use crate::crypto::base58::{base58_alphabet, base58_encode, lemma_encoding_in_alphabet};

verus! {

/// Checks whether a Base58-encoded address starts with the given pattern.
/// Case-sensitive, no normalization.
pub fn matches_prefix(address: &str, pattern: &str) -> (matched: bool)
    ensures
        matched == pattern@.is_prefix_of(address@),
{
    let plen = pattern.unicode_len();
    let alen = address.unicode_len();
    if plen > alen {
        return false;
    }
    let mut i: usize = 0;
    while i < plen
        invariant
            plen == pattern@.len(),
            alen == address@.len(),
            plen <= alen,
            i <= plen,
            forall|j: int| 0 <= j < i ==> pattern@[j] == address@[j],
        decreases plen - i,
    {
        if pattern.get_char(i) != address.get_char(i) {
            return false;
        }
        i = i + 1;
    }
    true
}

/// Law: a pattern holding a character outside the Base58 alphabet (such as `0`, `O`, `I`
/// or `l`) is a prefix of no Base58 encoding, so no key can ever match it.
pub proof fn lemma_pattern_outside_alphabet_never_matches(pattern: Seq<char>, key: Seq<u8>)
    requires
        exists|i: int| 0 <= i < pattern.len() && !base58_alphabet().contains(#[trigger] pattern[i]),
    ensures
        !pattern.is_prefix_of(base58_encode(key)),
{
    lemma_encoding_in_alphabet(key);
    let i = choose|i: int| 0 <= i < pattern.len() && !base58_alphabet().contains(#[trigger] pattern[i]);
    if pattern.is_prefix_of(base58_encode(key)) {
        assert(pattern[i] == base58_encode(key)[i]);
    }
}

} // verus!
