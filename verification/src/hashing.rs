//! Keccak-256 hashing and the fixed leaf encoding.
//!
//! The Merkle tree commits to `(identity, amount)` pairs. A leaf is the
//! Keccak-256 digest of the identity bytes followed by the amount as 32
//! big-endian bytes; interior nodes are the digest of the two child hashes
//! concatenated. Both use the same digest with no domain separation, which
//! this library inherits as part of the external proof format.

use vstd::prelude::*;
use sha3::Digest;

verus! {

/// The Keccak-256 digest of a byte sequence, left abstract: the digest is a
/// fixed function of the input bytes alone.
pub uninterp spec fn keccak_of(input: Seq<u8>) -> Seq<u8>;

/// Relies on `sha3::Keccak256` (through the `Digest` trait): the Keccak-256
/// digest of the input, a 32-byte value determined by the input bytes alone.
#[verifier::external_body]
fn keccak256(input: &Vec<u8>) -> (digest: Vec<u8>)
    ensures
        digest@ == keccak_of(input@),
        digest@.len() == 32,
{
    sha3::Keccak256::digest(input.as_slice()).to_vec()
}

/// Concatenation of two byte vectors.
fn concat_bytes(left: &Vec<u8>, right: &Vec<u8>) -> (joined: Vec<u8>)
    ensures
        joined@ == left@ + right@,
{
    let mut joined: Vec<u8> = Vec::new();
    let mut i: usize = 0;
    while i < left.len()
        invariant
            i <= left.len(),
            joined@ =~= left@.subrange(0, i as int),
        decreases left.len() - i,
    {
        joined.push(left[i]);
        i += 1;
    }
    let mut j: usize = 0;
    while j < right.len()
        invariant
            j <= right.len(),
            joined@ =~= left@ + right@.subrange(0, j as int),
        decreases right.len() - j,
    {
        joined.push(right[j]);
        j += 1;
    }
    proof {
        assert(joined@ =~= left@ + right@);
    }
    joined
}

/// Hash of two byte strings concatenated, as used for every tree node.
pub fn hash_pair(left: &Vec<u8>, right: &Vec<u8>) -> (digest: Vec<u8>)
    ensures
        digest@ == keccak_of(left@ + right@),
        digest@.len() == 32,
{
    let joined = concat_bytes(left, right);
    keccak256(&joined)
}

/// Byte `i` of the 32-byte big-endian encoding of an amount. The upper 16
/// bytes are zero, since amounts are held as 128-bit integers.
pub open spec fn amount_byte(amount: u128, i: int) -> u8 {
    if i < 16 {
        0u8
    } else {
        (amount >> ((8 * (31 - i)) as u128)) as u8
    }
}

/// The amount as 32 big-endian bytes, the fixed width used in leaves.
pub open spec fn amount_be_bytes(amount: u128) -> Seq<u8> {
    Seq::new(32, |i: int| amount_byte(amount, i))
}

/// Encode an amount as 32 big-endian bytes.
pub fn encode_amount(amount: u128) -> (bytes: Vec<u8>)
    ensures
        bytes@ == amount_be_bytes(amount),
{
    let mut bytes: Vec<u8> = Vec::new();
    let mut i: usize = 0;
    while i < 32
        invariant
            i <= 32,
            bytes@.len() == i,
            forall|j: int| 0 <= j < i ==> bytes@[j] == amount_byte(amount, j),
        decreases 32 - i,
    {
        if i < 16 {
            bytes.push(0u8);
        } else {
            let shift: u128 = (8 * (31 - i)) as u128;
            bytes.push((amount >> shift) as u8);
        }
        i += 1;
    }
    proof {
        assert(bytes@ =~= amount_be_bytes(amount));
    }
    bytes
}

/// The leaf committing to an `(identity, amount)` pair.
pub open spec fn leaf_of(identity: Seq<u8>, amount: u128) -> Seq<u8> {
    keccak_of(identity + amount_be_bytes(amount))
}

/// Compute the leaf hash for an `(identity, amount)` pair.
pub fn leaf_hash(identity: &Vec<u8>, amount: u128) -> (digest: Vec<u8>)
    ensures
        digest@ == leaf_of(identity@, amount),
        digest@.len() == 32,
{
    let encoded = encode_amount(amount);
    hash_pair(identity, &encoded)
}

/// Equality of two byte vectors.
pub fn bytes_eq(a: &Vec<u8>, b: &Vec<u8>) -> (equal: bool)
    ensures
        equal == (a@ == b@),
{
    if a.len() != b.len() {
        return false;
    }
    let mut i: usize = 0;
    while i < a.len()
        invariant
            i <= a.len(),
            a@.len() == b@.len(),
            forall|j: int| 0 <= j < i ==> a@[j] == b@[j],
        decreases a.len() - i,
    {
        if a[i] != b[i] {
            return false;
        }
        i += 1;
    }
    proof {
        assert(a@ =~= b@);
    }
    true
}

/// Copy of a byte vector.
pub fn copy_bytes(source: &Vec<u8>) -> (copy: Vec<u8>)
    ensures
        copy@ == source@,
{
    let mut copy: Vec<u8> = Vec::new();
    let mut i: usize = 0;
    while i < source.len()
        invariant
            i <= source.len(),
            copy@ =~= source@.subrange(0, i as int),
        decreases source.len() - i,
    {
        copy.push(source[i]);
        i += 1;
    }
    proof {
        assert(copy@ =~= source@);
    }
    copy
}

} // verus!
