//! Base58 (Bitcoin/Solana alphabet) encoding of byte strings.

use vstd::prelude::*;

verus! {

/// The Bitcoin Base58 alphabet: digits and letters without `0`, `O`, `I` and `l`.
pub open spec fn base58_alphabet() -> Seq<char> {
    seq![
        '1', '2', '3', '4', '5', '6', '7', '8', '9',
        'A', 'B', 'C', 'D', 'E', 'F', 'G', 'H', 'J', 'K', 'L', 'M', 'N', 'P', 'Q', 'R', 'S', 'T',
        'U', 'V', 'W', 'X', 'Y', 'Z',
        'a', 'b', 'c', 'd', 'e', 'f', 'g', 'h', 'i', 'j', 'k', 'm', 'n', 'o', 'p', 'q', 'r', 's',
        't', 'u', 'v', 'w', 'x', 'y', 'z',
    ]
}

/// The big-endian value of a byte string.
pub open spec fn be_value(bytes: Seq<u8>) -> nat
    decreases bytes.len(),
{
    if bytes.len() == 0 {
        0
    } else {
        be_value(bytes.drop_last()) * 256 + bytes.last() as nat
    }
}

/// The Base58 digits of `n`, most significant first, with no leading zero digit.
pub open spec fn base58_digits(n: nat) -> Seq<char>
    decreases n,
{
    if n == 0 {
        seq![]
    } else {
        base58_digits(n / 58).push(base58_alphabet()[(n % 58) as int])
    }
}

/// The number of zero bytes at the start of `bytes`.
pub open spec fn leading_zero_bytes(bytes: Seq<u8>) -> nat
    decreases bytes.len(),
{
    if bytes.len() > 0 && bytes[0] == 0 {
        1 + leading_zero_bytes(bytes.drop_first())
    } else {
        0
    }
}

/// Base58 encoding: one `'1'` per leading zero byte, then the Base58 digits of the
/// big-endian value of the bytes.
pub open spec fn base58_encode(bytes: Seq<u8>) -> Seq<char> {
    Seq::new(leading_zero_bytes(bytes), |i: int| '1') + base58_digits(be_value(bytes))
}

/// Calls `bs58::encode(data).into_string()` (default Bitcoin alphabet, no checksum).
/// The contract claims that the returned string is the Base58 encoding of `data` as
/// `base58_encode` defines it: the crate's `encode_into` computes the base-58 digits of the
/// big-endian value of the input and adds a `'1'` for each leading zero byte; the output
/// buffer is sized by `max_encoded_len`, so `into_string` does not fail.
#[verifier::external_body]
fn bs58_encode(data: &[u8]) -> (encoded: String)
    ensures
        encoded@ == base58_encode(data@),
{
    bs58::encode(data).into_string()
}

/// Encodes bytes to a Base58 string (Solana/Bitcoin alphabet).
pub fn encode(data: &[u8]) -> (encoded: String)
    ensures
        encoded@ == base58_encode(data@),
{
    bs58_encode(data)
}

/// Encodes bytes into an existing `String`, appending to its current contents.
pub fn encode_into(data: &[u8], buf: &mut String)
    ensures
        final(buf)@ == old(buf)@ + base58_encode(data@),
{
    let encoded = bs58_encode(data);
    buf.append(encoded.as_str());
}

proof fn lemma_alphabet_len()
    ensures
        base58_alphabet().len() == 58,
{
}

/// Every character of `base58_digits(n)` is a Base58 alphabet character.
proof fn lemma_digits_in_alphabet(n: nat)
    ensures
        forall|i: int|
            0 <= i < base58_digits(n).len() ==> base58_alphabet().contains(
                #[trigger] base58_digits(n)[i],
            ),
    decreases n,
{
    lemma_alphabet_len();
    if n > 0 {
        lemma_digits_in_alphabet(n / 58);
        let k = (n % 58) as int;
        assert(base58_alphabet()[k] == base58_alphabet()[k]);
        assert forall|i: int| 0 <= i < base58_digits(n).len() implies base58_alphabet().contains(
            #[trigger] base58_digits(n)[i],
        ) by {
            if i < base58_digits(n / 58).len() {
                assert(base58_digits(n)[i] == base58_digits(n / 58)[i]);
            } else {
                assert(base58_digits(n)[i] == base58_alphabet()[k]);
            }
        }
    }
}

/// Law: every character of a Base58 encoding belongs to the Base58 alphabet.
pub proof fn lemma_encoding_in_alphabet(bytes: Seq<u8>)
    ensures
        forall|i: int|
            0 <= i < base58_encode(bytes).len() ==> base58_alphabet().contains(
                #[trigger] base58_encode(bytes)[i],
            ),
{
    lemma_digits_in_alphabet(be_value(bytes));
    let z = leading_zero_bytes(bytes);
    assert(base58_alphabet()[0] == '1');
    assert forall|i: int| 0 <= i < base58_encode(bytes).len() implies base58_alphabet().contains(
        #[trigger] base58_encode(bytes)[i],
    ) by {
        if i < z {
            assert(base58_encode(bytes)[i] == '1');
        } else {
            assert(base58_encode(bytes)[i] == base58_digits(be_value(bytes))[i - z]);
        }
    }
}

} // verus!
