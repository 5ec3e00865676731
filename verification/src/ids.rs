//! Stable numbers for text ids.

use crate::words::join3;
use vstd::prelude::*;
use vstd::utf8::encode_utf8;

verus! {

/// Where the hash of an empty text stands.
pub const HASH_START: u64 = 0xcbf29ce484222325;

/// What the hash is multiplied by after each byte.
pub const HASH_PRIME: u64 = 0x100000001b3;

/// The product of two numbers, as much of it as 64 bits hold.
#[verifier::opaque]
pub open spec fn wrapped_product(left: u64, right: u64) -> u64 {
    ((left as int * right as int) % 0x1_0000_0000_0000_0000) as u64
}

/// The sum of two numbers, as much of it as 64 bits hold.
#[verifier::opaque]
pub open spec fn wrapped_sum(left: u64, right: u64) -> u64 {
    ((left as int + right as int) % 0x1_0000_0000_0000_0000) as u64
}

/// A sum wraps round at most once.
pub proof fn lemma_wrapped_sum(left: u64, right: u64)
    ensures
        wrapped_sum(left, right) == if left + right >= 0x1_0000_0000_0000_0000 {
            left + right - 0x1_0000_0000_0000_0000
        } else {
            left + right
        },
{
    reveal(wrapped_sum);
}

/// The product of two numbers, as much of it as 64 bits hold.
pub fn product(left: u64, right: u64) -> (wrapped: u64)
    ensures
        wrapped == wrapped_product(left, right),
{
    reveal(wrapped_product);
    left.wrapping_mul(right)
}

/// The sum of two numbers, as much of it as 64 bits hold.
pub fn sum(left: u64, right: u64) -> (wrapped: u64)
    ensures
        wrapped == wrapped_sum(left, right),
{
    reveal(wrapped_sum);
    left.wrapping_add(right)
}

/// The FNV-1a hash of some bytes: each byte in turn is mixed into the lowest bits, and the
/// prime spreads it over the rest.
pub open spec fn hash_of(bytes: Seq<u8>) -> u64
    decreases bytes.len(),
{
    if bytes.len() == 0 {
        HASH_START
    } else {
        wrapped_product(hash_of(bytes.drop_last()) ^ (bytes.last() as u64), HASH_PRIME)
    }
}

/// Stable FNV-1a hash for turning text ids into numbers.
pub fn hash_id(value: &str) -> (hash: u64)
    ensures
        hash == hash_of(encode_utf8(value@)),
{
    let bytes: &[u8] = value.as_bytes();
    let mut hash: u64 = HASH_START;
    let mut index: usize = 0;
    proof {
        assert(bytes@.take(0) =~= Seq::<u8>::empty());
    }
    while index < bytes.len()
        invariant
            bytes@ == encode_utf8(value@),
            index <= bytes@.len(),
            hash == hash_of(bytes@.take(index as int)),
        decreases bytes@.len() - index,
    {
        proof {
            assert(bytes@.take(index + 1).drop_last() =~= bytes@.take(index as int));
        }
        hash = product(hash ^ (bytes[index] as u64), HASH_PRIME);
        index += 1;
    }
    assert(bytes@.take(bytes@.len() as int) =~= bytes@);
    hash
}

/// The number of a model in the model menu: its provider and its name, kept apart by the unit
/// separator.
pub fn model_id(provider: &str, model: &str) -> (id: u64)
    ensures
        id == hash_of(encode_utf8(provider@ + "\u{1f}"@ + model@)),
{
    hash_id(join3(provider, "\u{1f}", model).as_str())
}

} // verus!
