//! The hash functions behind the seed pipeline, and the bytes that go
//! into them.

use sha2::Digest;
use vstd::prelude::*;

verus! {

/// The BLAKE3 digest of a byte string.
pub uninterp spec fn blake3_digest(data: Seq<u8>) -> Seq<u8>;

/// The SHA-256 digest of a byte string.
pub uninterp spec fn sha256_digest(data: Seq<u8>) -> Seq<u8>;

/// Hashes a byte string with BLAKE3. Calls `blake3::hash` and copies the
/// 32 bytes out of its result; the contract names the digest and claims
/// nothing else about it.
#[verifier::external_body]
pub(crate) fn blake3_hash(data: &[u8]) -> (digest: [u8; 32])
    ensures
        digest@ == blake3_digest(data@),
{
    *blake3::hash(data).as_bytes()
}

/// Hashes a byte string with SHA-256. Calls `sha2::Sha256::digest` and
/// copies the 32 bytes out of its result; the contract names the digest
/// and claims nothing else about it.
#[verifier::external_body]
pub(crate) fn sha256_hash(data: &[u8]) -> (digest: [u8; 32])
    ensures
        digest@ == sha256_digest(data@),
{
    sha2::Sha256::digest(data).into()
}

/// The bytes that are hashed to derive the seed of a hand: the domain
/// tag, the seed before, and the three identifiers of the hand as 64-bit
/// little-endian numbers.
pub open spec fn hand_message(
    tag: Seq<u8>,
    seed: Seq<u8>,
    table_id: u64,
    hand_id: u64,
    hand_index: u64,
) -> Seq<u8> {
    tag + seed + vstd::bytes::spec_u64_to_le_bytes(table_id) + vstd::bytes::spec_u64_to_le_bytes(
        hand_id,
    ) + vstd::bytes::spec_u64_to_le_bytes(hand_index)
}

/// The seed of a number: its eight little-endian bytes, then zeros.
pub open spec fn seed_of_number(x: u64) -> Seq<u8> {
    vstd::bytes::spec_u64_to_le_bytes(x) + Seq::new(24, |i: int| 0u8)
}

/// Appends bytes to a buffer.
pub(crate) fn append_bytes(buffer: &mut Vec<u8>, bytes: &[u8])
    ensures
        final(buffer)@ == old(buffer)@ + bytes@,
{
    let mut i: usize = 0;
    while i < bytes.len()
        invariant
            i <= bytes@.len(),
            buffer@ == old(buffer)@ + bytes@.take(i as int),
        decreases bytes@.len() - i,
    {
        buffer.push(bytes[i]);
        assert(buffer@ =~= old(buffer)@ + bytes@.take(i + 1));
        i += 1;
    }
    assert(bytes@.take(bytes@.len() as int) =~= bytes@);
}

/// Builds the bytes that are hashed to derive the seed of a hand.
pub(crate) fn build_hand_message(
    tag: &[u8],
    seed: &[u8; 32],
    table_id: u64,
    hand_id: u64,
    hand_index: u64,
) -> (message: Vec<u8>)
    ensures
        message@ == hand_message(tag@, seed@, table_id, hand_id, hand_index),
{
    let mut message: Vec<u8> = Vec::new();
    append_bytes(&mut message, tag);
    append_bytes(&mut message, seed.as_slice());
    let table = vstd::bytes::u64_to_le_bytes(table_id);
    append_bytes(&mut message, table.as_slice());
    let hand = vstd::bytes::u64_to_le_bytes(hand_id);
    append_bytes(&mut message, hand.as_slice());
    let index = vstd::bytes::u64_to_le_bytes(hand_index);
    append_bytes(&mut message, index.as_slice());
    assert(message@ =~= hand_message(tag@, seed@, table_id, hand_id, hand_index));
    message
}

/// Builds the seed of a number.
pub(crate) fn number_seed(x: u64) -> (seed: [u8; 32])
    ensures
        seed@ == seed_of_number(x),
{
    let le = vstd::bytes::u64_to_le_bytes(x);
    proof {
        vstd::bytes::lemma_auto_spec_u64_to_from_le_bytes();
    }
    let seed: [u8; 32] = [
        le[0],
        le[1],
        le[2],
        le[3],
        le[4],
        le[5],
        le[6],
        le[7],
        0,
        0,
        0,
        0,
        0,
        0,
        0,
        0,
        0,
        0,
        0,
        0,
        0,
        0,
        0,
        0,
        0,
        0,
        0,
        0,
        0,
        0,
        0,
        0,
    ];
    assert(seed@ =~= seed_of_number(x));
    seed
}

/// Messages of hands that differ in the index alone differ: the hash is
/// never fed the same bytes for two hands of one table.
pub proof fn messages_differ_by_index(
    tag: Seq<u8>,
    seed: Seq<u8>,
    table_id: u64,
    hand_id: u64,
    index1: u64,
    index2: u64,
)
    requires
        index1 != index2,
    ensures
        hand_message(tag, seed, table_id, hand_id, index1) != hand_message(
            tag,
            seed,
            table_id,
            hand_id,
            index2,
        ),
{
    vstd::bytes::lemma_auto_spec_u64_to_from_le_bytes();
    let m1 = hand_message(tag, seed, table_id, hand_id, index1);
    let m2 = hand_message(tag, seed, table_id, hand_id, index2);
    let head = tag + seed + vstd::bytes::spec_u64_to_le_bytes(table_id)
        + vstd::bytes::spec_u64_to_le_bytes(hand_id);
    let t1 = vstd::bytes::spec_u64_to_le_bytes(index1);
    let t2 = vstd::bytes::spec_u64_to_le_bytes(index2);
    if m1 == m2 {
        assert(m1.subrange(head.len() as int, m1.len() as int) =~= t1);
        assert(m2.subrange(head.len() as int, m2.len() as int) =~= t2);
        assert(vstd::bytes::spec_u64_from_le_bytes(t1) == index1);
        assert(vstd::bytes::spec_u64_from_le_bytes(t2) == index2);
    }
}

} // verus!
